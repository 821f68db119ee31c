//! Stable identifiers for UI widgets, and the flag that disables menu
//! input. Widget identifiers are a pure fold over the widget's name, so the
//! same name always yields the same identifier.

use vstd::prelude::*;

verus! {

/// Seed of the widget-identifier fold.
pub const HASH_SEED: u64 = 0xcbf2_9ce4_8422_2325;

/// Multiplier of the widget-identifier fold.
pub const HASH_PRIME: u64 = 0x100_0000_01b3;

/// One step of the identifier fold: mix one character into the state.
pub open spec fn spec_widget_hash_step(h: u64, c: char) -> u64 {
    vstd::wrapping::u64_specs::wrapping_mul(h ^ ((c as u32) as u64), HASH_PRIME)
}

/// Fold a character sequence into the state `h`, front to back.
pub open spec fn spec_widget_hash_from(h: u64, s: Seq<char>) -> u64
    decreases s.len(),
{
    if s.len() == 0 {
        h
    } else {
        spec_widget_hash_from(spec_widget_hash_step(h, s[0]), s.drop_first())
    }
}

/// The identifier of a widget name: the fold of its characters from the
/// fixed seed.
pub open spec fn spec_widget_hash(s: Seq<char>) -> u64 {
    spec_widget_hash_from(HASH_SEED, s)
}

/// Folding a concatenation equals folding the first part and then the
/// second from the state the first part produced.
pub proof fn lemma_widget_hash_append(h: u64, a: Seq<char>, b: Seq<char>)
    ensures
        spec_widget_hash_from(h, a + b) == spec_widget_hash_from(spec_widget_hash_from(h, a), b),
    decreases a.len(),
{
    if a.len() == 0 {
        assert(a + b =~= b);
    } else {
        assert((a + b)[0] == a[0]);
        assert((a + b).drop_first() =~= a.drop_first() + b);
        lemma_widget_hash_append(spec_widget_hash_step(h, a[0]), a.drop_first(), b);
    }
}

/// The decimal rendering of a number, most significant digit first.
pub open spec fn spec_decimal_chars(n: u64) -> Seq<char>
    decreases n,
{
    if n < 10 {
        seq![spec_digit_char(n)]
    } else {
        spec_decimal_chars(n / 10).push(spec_digit_char(n % 10))
    }
}

/// The character of one decimal digit.
pub open spec fn spec_digit_char(d: u64) -> char {
    if d == 0 {
        '0'
    } else if d == 1 {
        '1'
    } else if d == 2 {
        '2'
    } else if d == 3 {
        '3'
    } else if d == 4 {
        '4'
    } else if d == 5 {
        '5'
    } else if d == 6 {
        '6'
    } else if d == 7 {
        '7'
    } else if d == 8 {
        '8'
    } else {
        '9'
    }
}

fn digit_char(d: u64) -> (c: char)
    requires
        d < 10,
    ensures
        c == spec_digit_char(d),
{
    if d == 0 {
        '0'
    } else if d == 1 {
        '1'
    } else if d == 2 {
        '2'
    } else if d == 3 {
        '3'
    } else if d == 4 {
        '4'
    } else if d == 5 {
        '5'
    } else if d == 6 {
        '6'
    } else if d == 7 {
        '7'
    } else if d == 8 {
        '8'
    } else {
        '9'
    }
}

/// Append the decimal rendering of `n` to `out`.
fn push_decimal_chars(n: u64, out: &mut Vec<char>)
    ensures
        final(out)@ == old(out)@ + spec_decimal_chars(n),
    decreases n,
{
    if n < 10 {
        out.push(digit_char(n));
        proof {
            assert(out@ =~= old(out)@ + spec_decimal_chars(n));
        }
    } else {
        push_decimal_chars(n / 10, out);
        out.push(digit_char(n % 10));
        proof {
            assert(out@ =~= old(out)@ + spec_decimal_chars(n));
        }
    }
}

/// Fold the characters of `s` into the state `h0`.
fn hash_str_from(h0: u64, s: &str) -> (r: u64)
    ensures
        r == spec_widget_hash_from(h0, s@),
{
    let n: usize = s.unicode_len();
    let mut h: u64 = h0;
    let mut i: usize = 0;
    proof {
        assert(s@.subrange(0, n as int) =~= s@);
    }
    while i < n
        invariant
            i <= n,
            n == s@.len(),
            spec_widget_hash_from(h0, s@) == spec_widget_hash_from(
                h,
                s@.subrange(i as int, n as int),
            ),
        decreases n - i,
    {
        let c: char = s.get_char(i);
        h = (h ^ ((c as u32) as u64)).wrapping_mul(HASH_PRIME);
        proof {
            assert(s@.subrange(i as int, n as int).drop_first() =~= s@.subrange(
                i as int + 1,
                n as int,
            ));
        }
        i = i + 1;
    }
    proof {
        assert(s@.subrange(n as int, n as int) =~= Seq::<char>::empty());
    }
    h
}

/// Fold the characters of `s` into the state `h0`.
fn hash_chars_from(h0: u64, s: &Vec<char>) -> (r: u64)
    ensures
        r == spec_widget_hash_from(h0, s@),
{
    let n: usize = s.len();
    let mut h: u64 = h0;
    let mut i: usize = 0;
    proof {
        assert(s@.subrange(0, n as int) =~= s@);
    }
    while i < n
        invariant
            i <= n,
            n == s@.len(),
            spec_widget_hash_from(h0, s@) == spec_widget_hash_from(
                h,
                s@.subrange(i as int, n as int),
            ),
        decreases n - i,
    {
        let c: char = s[i];
        h = (h ^ ((c as u32) as u64)).wrapping_mul(HASH_PRIME);
        proof {
            assert(s@.subrange(i as int, n as int).drop_first() =~= s@.subrange(
                i as int + 1,
                n as int,
            ));
        }
        i = i + 1;
    }
    proof {
        assert(s@.subrange(n as int, n as int) =~= Seq::<char>::empty());
    }
    h
}

/// A stable identifier for a UI widget, derived deterministically from the
/// widget's name.
#[derive(Clone, Copy, Debug, PartialEq, Eq, Hash, Structural)]
pub struct WidgetId(pub u64);

impl WidgetId {
    /// The identifier of the widget named `name`.
    pub fn new(name: &str) -> (r: WidgetId)
        ensures
            r.0 == spec_widget_hash(name@),
    {
        WidgetId(hash_str_from(HASH_SEED, name))
    }

    /// A child identifier: the identifier of the decimal rendering of this
    /// identifier followed by `name`, so `id.with(n)` equals `new` applied
    /// to that concatenated name.
    pub fn with(&self, name: &str) -> (r: WidgetId)
        ensures
            r.0 == spec_widget_hash(spec_decimal_chars(self.0) + name@),
    {
        let mut prefix: Vec<char> = Vec::new();
        push_decimal_chars(self.0, &mut prefix);
        proof {
            assert(prefix@ =~= spec_decimal_chars(self.0));
            lemma_widget_hash_append(HASH_SEED, prefix@, name@);
        }
        let h1: u64 = hash_chars_from(HASH_SEED, &prefix);
        WidgetId(hash_str_from(h1, name))
    }
}

/// When set, directional menu input is ignored.
#[derive(Clone, Copy, Debug, PartialEq, Eq, Structural)]
pub struct DisableMenuInput(pub bool);

impl Default for DisableMenuInput {
    /// Menu input starts enabled.
    fn default() -> (r: DisableMenuInput)
        ensures
            r.0 == false,
    {
        DisableMenuInput(false)
    }
}

} // verus!
