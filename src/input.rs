use vstd::prelude::*;
use crate::errors::KeyFromStrError;
use crate::modes::ScreenReaderMode;
use crate::modifiers::Modifiers;
use crate::text::{
    ascii_fold,
    chars_of,
    eq_ignore_ascii_case,
    is_whitespace,
    is_whitespace_char,
    range_eq_ignore_ascii_case,
};

verus! {

/// A key together with the modifiers, press count and mode that trigger a command.
#[derive(Clone, Copy, Debug, PartialEq, Eq, Hash, Structural)]
pub struct KeyBinding {
    pub key: char,
    pub mods: Modifiers,
    pub repeat: u8,
    pub mode: ScreenReaderMode,
}

/// The pieces of `s` between occurrences of `sep`, in order; never empty, and an empty
/// `s` is one empty piece.
pub open spec fn split_on(s: Seq<char>, sep: char) -> Seq<Seq<char>>
    decreases s.len(),
{
    if s.len() == 0 {
        seq![Seq::empty()]
    } else {
        let rest = split_on(s.drop_last(), sep);
        if s.last() == sep {
            rest.push(Seq::empty())
        } else {
            rest.update(rest.len() - 1, rest.last().push(s.last()))
        }
    }
}

/// `s` without its trailing whitespace.
pub open spec fn trim_end(s: Seq<char>) -> Seq<char>
    decreases s.len(),
{
    if s.len() > 0 && is_whitespace(s.last()) {
        trim_end(s.drop_last())
    } else {
        s
    }
}

/// The position of the first `c` in `s`, or the length of `s` where there is none.
pub open spec fn index_of_or_len(s: Seq<char>, c: char) -> int
    decreases s.len(),
{
    if s.len() == 0 {
        0
    } else if s[0] == c {
        0
    } else {
        1 + index_of_or_len(s.drop_first(), c)
    }
}

/// The key part of a key-and-repeat token: everything before its first `:`.
pub open spec fn key_part(t: Seq<char>) -> Seq<char> {
    t.take(index_of_or_len(t, ':'))
}

/// The repeat part of a key-and-repeat token: everything after its first `:`, if any.
pub open spec fn repeat_part(t: Seq<char>) -> Option<Seq<char>> {
    let i = index_of_or_len(t, ':');
    if i < t.len() {
        Some(t.skip(i + 1))
    } else {
        None
    }
}

pub open spec fn is_digit(c: char) -> bool {
    '0' <= c && c <= '9'
}

/// The number that the decimal digits `d` spell.
pub open spec fn decimal_value(d: Seq<char>) -> nat
    decreases d.len(),
{
    if d.len() == 0 {
        0
    } else {
        decimal_value(d.drop_last()) * 10 + ((d.last() as int) - ('0' as int)) as nat
    }
}

/// The press count that a repeat part stands for: 1 where there is none, else the
/// value of one or more decimal digits, which must lie in 1..=255.
pub open spec fn repeat_count(r: Option<Seq<char>>) -> Option<u8> {
    match r {
        None => Some(1),
        Some(d) => {
            if d.len() > 0 && (forall|i: int| 0 <= i < d.len() ==> is_digit(#[trigger] d[i]))
                && 1 <= decimal_value(d) <= 255 {
                Some(decimal_value(d) as u8)
            } else {
                None
            }
        },
    }
}

/// The bits that a modifier name stands for, matched without regard to ASCII case.
pub open spec fn modifier_flags(name: Seq<char>) -> Option<u16> {
    if eq_ignore_ascii_case(name, "Odilia"@) {
        Some(Modifiers::ODILIA)
    } else if eq_ignore_ascii_case(name, "Applications"@) {
        Some(Modifiers::APPLICATIONS)
    } else if eq_ignore_ascii_case(name, "LeftControl"@) {
        Some(Modifiers::CONTROL_L)
    } else if eq_ignore_ascii_case(name, "RightControl"@) {
        Some(Modifiers::CONTROL_R)
    } else if eq_ignore_ascii_case(name, "Control"@) {
        Some(Modifiers::CONTROL)
    } else if eq_ignore_ascii_case(name, "LeftAlt"@) {
        Some(Modifiers::ALT_L)
    } else if eq_ignore_ascii_case(name, "RightAlt"@) {
        Some(Modifiers::ALT_R)
    } else if eq_ignore_ascii_case(name, "Alt"@) {
        Some(Modifiers::ALT)
    } else if eq_ignore_ascii_case(name, "LeftShift"@) {
        Some(Modifiers::SHIFT_L)
    } else if eq_ignore_ascii_case(name, "RightShift"@) {
        Some(Modifiers::SHIFT_R)
    } else if eq_ignore_ascii_case(name, "Shift"@) {
        Some(Modifiers::SHIFT)
    } else if eq_ignore_ascii_case(name, "LeftMeta"@) {
        Some(Modifiers::META_L)
    } else if eq_ignore_ascii_case(name, "RightMeta"@) {
        Some(Modifiers::META_R)
    } else if eq_ignore_ascii_case(name, "Meta"@) {
        Some(Modifiers::META)
    } else {
        None
    }
}

/// The union of the bits of all `names`, or `None` where one of them is no modifier.
pub open spec fn modifier_mask(names: Seq<Seq<char>>) -> Option<u16>
    decreases names.len(),
{
    if names.len() == 0 {
        Some(0)
    } else {
        match (modifier_mask(names.drop_last()), modifier_flags(names.last())) {
            (Some(a), Some(b)) => Some(a | b),
            _ => None,
        }
    }
}

/// What a binding string denotes.
///
/// The last `+`-separated piece, with trailing whitespace trimmed, is the key and
/// optional `:repeat`; the pieces before it are modifier names. Errors are reported in
/// this order: an empty string, then the key, then the repeat count, then the first
/// unknown modifier. Every binding is in `CommandMode`.
pub open spec fn parse_binding(s: Seq<char>) -> Result<KeyBinding, KeyFromStrError> {
    if s.len() == 0 {
        Err(KeyFromStrError::EmptyString)
    } else {
        let tokens = split_on(s, '+');
        let last = trim_end(tokens.last());
        let key = key_part(last);
        if key.len() == 0 {
            Err(KeyFromStrError::NoKey)
        } else if key.len() > 1 {
            Err(KeyFromStrError::InvalidKey)
        } else {
            match repeat_count(repeat_part(last)) {
                None => Err(KeyFromStrError::InvalidRepeat),
                Some(repeat) => match modifier_mask(tokens.drop_last()) {
                    None => Err(KeyFromStrError::InvalidModifier),
                    Some(bits) => Ok(
                        KeyBinding {
                            key: key[0],
                            mods: Modifiers { bits },
                            repeat,
                            mode: ScreenReaderMode::CommandMode,
                        },
                    ),
                },
            }
        }
    }
}

proof fn lemma_index_of_or_len(s: Seq<char>, c: char, i: int)
    requires
        0 <= i <= s.len(),
        i == s.len() || s[i] == c,
        forall|k: int| 0 <= k < i ==> s[k] != c,
    ensures
        index_of_or_len(s, c) == i,
    decreases i,
{
    if i > 0 {
        lemma_index_of_or_len(s.drop_first(), c, i - 1);
    }
}

proof fn lemma_split_on_nonempty(s: Seq<char>, sep: char)
    ensures
        split_on(s, sep).len() >= 1,
    decreases s.len(),
{
    if s.len() > 0 {
        lemma_split_on_nonempty(s.drop_last(), sep);
    }
}

proof fn lemma_same_case_fold(x: Seq<char>, y: Seq<char>, name: Seq<char>)
    requires
        eq_ignore_ascii_case(x, y),
    ensures
        eq_ignore_ascii_case(x, name) == eq_ignore_ascii_case(y, name),
{
    if eq_ignore_ascii_case(y, name) {
        assert forall|i: int| 0 <= i < x.len() implies ascii_fold(#[trigger] x[i]) == ascii_fold(
            name[i],
        ) by {
            assert(ascii_fold(y[i]) == ascii_fold(name[i]));
        }
    }
    if eq_ignore_ascii_case(x, name) {
        assert forall|i: int| 0 <= i < y.len() implies ascii_fold(#[trigger] y[i]) == ascii_fold(
            name[i],
        ) by {
            assert(ascii_fold(x[i]) == ascii_fold(y[i]));
        }
    }
}

proof fn lemma_flags_ignore_case(x: Seq<char>, y: Seq<char>)
    requires
        eq_ignore_ascii_case(x, y),
    ensures
        modifier_flags(x) == modifier_flags(y),
{
    lemma_same_case_fold(x, y, "Odilia"@);
    lemma_same_case_fold(x, y, "Applications"@);
    lemma_same_case_fold(x, y, "LeftControl"@);
    lemma_same_case_fold(x, y, "RightControl"@);
    lemma_same_case_fold(x, y, "Control"@);
    lemma_same_case_fold(x, y, "LeftAlt"@);
    lemma_same_case_fold(x, y, "RightAlt"@);
    lemma_same_case_fold(x, y, "Alt"@);
    lemma_same_case_fold(x, y, "LeftShift"@);
    lemma_same_case_fold(x, y, "RightShift"@);
    lemma_same_case_fold(x, y, "Shift"@);
    lemma_same_case_fold(x, y, "LeftMeta"@);
    lemma_same_case_fold(x, y, "RightMeta"@);
    lemma_same_case_fold(x, y, "Meta"@);
}

proof fn lemma_mask_ignore_case(xs: Seq<Seq<char>>, ys: Seq<Seq<char>>)
    requires
        xs.len() == ys.len(),
        forall|i: int| 0 <= i < xs.len() ==> eq_ignore_ascii_case(#[trigger] xs[i], ys[i]),
    ensures
        modifier_mask(xs) == modifier_mask(ys),
    decreases xs.len(),
{
    if xs.len() > 0 {
        lemma_mask_ignore_case(xs.drop_last(), ys.drop_last());
        lemma_flags_ignore_case(xs.last(), ys.last());
    }
}

/// Parsing depends on the characters of the input alone: two strings with the same
/// characters give the same binding, or the same error.
pub proof fn parse_is_deterministic(a: &str, b: &str)
    requires
        a@ == b@,
    ensures
        parse_binding(a@) == parse_binding(b@),
{
}

/// Modifier names are matched without regard to ASCII case: where the modifier pieces
/// of two inputs agree up to the case of ASCII letters, they give the same mask, and
/// two bindings read from them hold the same modifiers.
pub proof fn modifier_names_ignore_ascii_case(a: Seq<char>, b: Seq<char>)
    requires
        split_on(a, '+').len() == split_on(b, '+').len(),
        forall|i: int|
            0 <= i < split_on(a, '+').len() - 1 ==> eq_ignore_ascii_case(
                #[trigger] split_on(a, '+')[i],
                split_on(b, '+')[i],
            ),
    ensures
        modifier_mask(split_on(a, '+').drop_last()) == modifier_mask(
            split_on(b, '+').drop_last(),
        ),
        parse_binding(a) is Ok && parse_binding(b) is Ok ==> parse_binding(a)->Ok_0.mods
            == parse_binding(b)->Ok_0.mods,
{
    lemma_split_on_nonempty(a, '+');
    lemma_split_on_nonempty(b, '+');
    let xs = split_on(a, '+').drop_last();
    let ys = split_on(b, '+').drop_last();
    assert forall|i: int| 0 <= i < xs.len() implies eq_ignore_ascii_case(
        #[trigger] xs[i],
        ys[i],
    ) by {
        assert(eq_ignore_ascii_case(split_on(a, '+')[i], split_on(b, '+')[i]));
    }
    lemma_mask_ignore_case(xs, ys);
}

/// The bits of the modifier named by `cs[lo..hi]`.
fn modifier_flags_at(cs: &Vec<char>, lo: usize, hi: usize) -> (r: Option<u16>)
    requires
        lo <= hi <= cs@.len(),
    ensures
        r == modifier_flags(cs@.subrange(lo as int, hi as int)),
{
    if range_eq_ignore_ascii_case(cs, lo, hi, "Odilia") {
        Some(Modifiers::ODILIA)
    } else if range_eq_ignore_ascii_case(cs, lo, hi, "Applications") {
        Some(Modifiers::APPLICATIONS)
    } else if range_eq_ignore_ascii_case(cs, lo, hi, "LeftControl") {
        Some(Modifiers::CONTROL_L)
    } else if range_eq_ignore_ascii_case(cs, lo, hi, "RightControl") {
        Some(Modifiers::CONTROL_R)
    } else if range_eq_ignore_ascii_case(cs, lo, hi, "Control") {
        Some(Modifiers::CONTROL)
    } else if range_eq_ignore_ascii_case(cs, lo, hi, "LeftAlt") {
        Some(Modifiers::ALT_L)
    } else if range_eq_ignore_ascii_case(cs, lo, hi, "RightAlt") {
        Some(Modifiers::ALT_R)
    } else if range_eq_ignore_ascii_case(cs, lo, hi, "Alt") {
        Some(Modifiers::ALT)
    } else if range_eq_ignore_ascii_case(cs, lo, hi, "LeftShift") {
        Some(Modifiers::SHIFT_L)
    } else if range_eq_ignore_ascii_case(cs, lo, hi, "RightShift") {
        Some(Modifiers::SHIFT_R)
    } else if range_eq_ignore_ascii_case(cs, lo, hi, "Shift") {
        Some(Modifiers::SHIFT)
    } else if range_eq_ignore_ascii_case(cs, lo, hi, "LeftMeta") {
        Some(Modifiers::META_L)
    } else if range_eq_ignore_ascii_case(cs, lo, hi, "RightMeta") {
        Some(Modifiers::META_R)
    } else if range_eq_ignore_ascii_case(cs, lo, hi, "Meta") {
        Some(Modifiers::META)
    } else {
        None
    }
}

/// The press count spelled by `cs[lo..hi]`, read as a repeat part.
fn repeat_count_at(cs: &Vec<char>, lo: usize, hi: usize) -> (r: Option<u8>)
    requires
        lo <= hi <= cs@.len(),
    ensures
        r == repeat_count(Some(cs@.subrange(lo as int, hi as int))),
{
    let ghost d = cs@.subrange(lo as int, hi as int);
    // `value` is the number read so far, held at 256 once it exceeds 255.
    let mut value: u32 = 0;
    let mut k: usize = lo;
    while k < hi
        invariant
            lo <= k <= hi <= cs@.len(),
            d == cs@.subrange(lo as int, hi as int),
            forall|i: int| lo <= i < k ==> is_digit(#[trigger] cs@[i]),
            value <= 256,
            value == if decimal_value(cs@.subrange(lo as int, k as int)) <= 256 {
                decimal_value(cs@.subrange(lo as int, k as int))
            } else {
                256
            },
        decreases hi - k,
    {
        let c = cs[k];
        if !('0' <= c && c <= '9') {
            assert(!is_digit(d[k - lo]));
            return None;
        }
        let ghost prev = decimal_value(cs@.subrange(lo as int, k as int));
        assert(cs@.subrange(lo as int, k + 1).drop_last() =~= cs@.subrange(lo as int, k as int));
        let digit = (c as u32) - ('0' as u32);
        if value >= 256 {
            assert(prev * 10 + digit >= 256) by (nonlinear_arith)
                requires
                    prev >= 256,
            ;
            value = 256;
        } else {
            let next = value * 10 + digit;
            value = if next > 256 {
                256
            } else {
                next
            };
        }
        k = k + 1;
    }
    assert(cs@.subrange(lo as int, hi as int) =~= cs@.subrange(lo as int, k as int));
    if hi == lo || value == 0 || value > 255 {
        None
    } else {
        Some(value as u8)
    }
}

/// Where the last `+`-separated piece of `cs` starts, and the union of the modifier
/// names before it (`None` where one is no modifier).
fn split_last_token(cs: &Vec<char>) -> (r: (usize, Option<u16>))
    ensures
        r.0 <= cs@.len(),
        split_on(cs@, '+').last() == cs@.subrange(r.0 as int, cs@.len() as int),
        modifier_mask(split_on(cs@, '+').drop_last()) == r.1,
{
    let n = cs.len();
    let mut start: usize = 0;
    let mut mods_ok = true;
    let mut bits: u16 = 0;
    let ghost mut names: Seq<Seq<char>> = Seq::empty();
    let mut i: usize = 0;
    assert(cs@.take(0) =~= Seq::<char>::empty());
    assert(cs@.subrange(0, 0) =~= Seq::<char>::empty());
    assert(split_on(Seq::<char>::empty(), '+') == seq![Seq::<char>::empty()]);
    while i < n
        invariant
            n == cs@.len(),
            start <= i <= n,
            split_on(cs@.take(i as int), '+') == names.push(cs@.subrange(start as int, i as int)),
            modifier_mask(names) == if mods_ok {
                Some(bits)
            } else {
                None::<u16>
            },
        decreases n - i,
    {
        assert(cs@.take(i + 1).drop_last() =~= cs@.take(i as int));
        if cs[i] == '+' {
            let ghost name = cs@.subrange(start as int, i as int);
            if mods_ok {
                match modifier_flags_at(cs, start, i) {
                    Some(f) => {
                        bits = bits | f;
                    },
                    None => {
                        mods_ok = false;
                    },
                }
            }
            proof {
                assert(names.push(name).drop_last() =~= names);
                names = names.push(name);
                assert(cs@.subrange(i + 1, i + 1) =~= Seq::<char>::empty());
            }
            start = i + 1;
        } else {
            assert(cs@.subrange(start as int, i + 1) =~= cs@.subrange(start as int, i as int).push(
                cs@[i as int],
            ));
        }
        i = i + 1;
    }
    assert(cs@.take(n as int) =~= cs@);
    assert(names.push(cs@.subrange(start as int, n as int)).drop_last() =~= names);
    (
        start,
        if mods_ok {
            Some(bits)
        } else {
            None
        },
    )
}

/// Where `cs[start..]` ends once its trailing whitespace is trimmed.
fn trimmed_end(cs: &Vec<char>, start: usize) -> (end: usize)
    requires
        start <= cs@.len(),
    ensures
        start <= end <= cs@.len(),
        trim_end(cs@.subrange(start as int, cs@.len() as int)) == cs@.subrange(
            start as int,
            end as int,
        ),
{
    let n = cs.len();
    let mut end: usize = n;
    while end > start && is_whitespace_char(cs[end - 1])
        invariant
            n == cs@.len(),
            start <= end <= n,
            trim_end(cs@.subrange(start as int, n as int)) == trim_end(
                cs@.subrange(start as int, end as int),
            ),
        decreases end,
    {
        assert(cs@.subrange(start as int, end as int).drop_last() =~= cs@.subrange(
            start as int,
            end - 1,
        ));
        end = end - 1;
    }
    end
}

/// The position of the first `:` in `cs[lo..hi]`, or `hi` where there is none.
fn colon_at(cs: &Vec<char>, lo: usize, hi: usize) -> (r: usize)
    requires
        lo <= hi <= cs@.len(),
    ensures
        lo <= r <= hi,
        r - lo == index_of_or_len(cs@.subrange(lo as int, hi as int), ':'),
{
    let mut k: usize = lo;
    while k < hi && cs[k] != ':'
        invariant
            lo <= k <= hi <= cs@.len(),
            forall|j: int| lo <= j < k ==> cs@[j] != ':',
        decreases hi - k,
    {
        k = k + 1;
    }
    proof {
        lemma_index_of_or_len(cs@.subrange(lo as int, hi as int), ':', k - lo);
    }
    k
}

impl KeyBinding {
    /// Reads a binding such as `"Control+Shift+s:3"`: modifier names joined by `+`,
    /// then one key character, then an optional `:` and press count.
    pub fn parse(s: &str) -> (r: Result<KeyBinding, KeyFromStrError>)
        ensures
            r == parse_binding(s@),
    {
        let cs = chars_of(s);
        let n = cs.len();
        if n == 0 {
            return Err(KeyFromStrError::EmptyString);
        }
        // An unknown modifier is reported only once the key and repeat count have passed.
        let (start, mods) = split_last_token(&cs);
        let end = trimmed_end(&cs, start);
        let ghost last = cs@.subrange(start as int, end as int);
        let colon = colon_at(&cs, start, end);
        assert(key_part(last) =~= cs@.subrange(start as int, colon as int));
        if colon == start {
            return Err(KeyFromStrError::NoKey);
        }
        if colon - start > 1 {
            return Err(KeyFromStrError::InvalidKey);
        }
        let key = cs[start];
        let repeat = if colon < end {
            assert(last.skip(colon - start + 1) =~= cs@.subrange(colon + 1, end as int));
            repeat_count_at(&cs, colon + 1, end)
        } else {
            Some(1u8)
        };
        match repeat {
            None => Err(KeyFromStrError::InvalidRepeat),
            Some(repeat) => match mods {
                None => Err(KeyFromStrError::InvalidModifier),
                Some(bits) => Ok(
                    KeyBinding { key, mods: Modifiers { bits }, repeat, mode: ScreenReaderMode::CommandMode },
                ),
            },
        }
    }
}

impl std::str::FromStr for KeyBinding {
    type Err = KeyFromStrError;

    fn from_str(s: &str) -> (r: Result<KeyBinding, KeyFromStrError>)
        ensures
            r == parse_binding(s@),
    {
        KeyBinding::parse(s)
    }
}

} // verus!
