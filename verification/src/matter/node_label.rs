//! Node labels: names clamped to the length that Matter allows.
use crate::text::to_chars;
use vstd::prelude::*;
use vstd::string::*;

verus! {

/// Bytes that a character takes in UTF-8.
pub open spec fn utf8_width(c: char) -> nat {
    let n = c as u32;
    if n < 0x80 {
        1
    } else if n < 0x800 {
        2
    } else if n < 0x10000 {
        3
    } else {
        4
    }
}

/// The longest beginning of `s` that takes at most `max` bytes in UTF-8.
pub open spec fn clamped(s: Seq<char>, max: int) -> Seq<char>
    decreases s.len(),
{
    if s.len() == 0 || utf8_width(s[0]) > max {
        Seq::empty()
    } else {
        seq![s[0]] + clamped(s.drop_first(), max - utf8_width(s[0]))
    }
}

/// A clamped text is a beginning of the text, takes at most `max` bytes, and is either the
/// whole text or cannot be one character longer.
pub proof fn law_clamped(s: Seq<char>, max: int)
    requires
        max >= 0,
    ensures
        ({
            let r = clamped(s, max);
            &&& r.len() <= s.len()
            &&& r == s.take(r.len() as int)
            &&& vstd::utf8::encode_utf8(r).len() <= max
            &&& r.len() < s.len() ==> vstd::utf8::encode_utf8(s.take(r.len() as int + 1)).len() > max
        }),
    decreases s.len(),
{
    let r = clamped(s, max);
    if s.len() > 0 {
        vstd::utf8::char_is_scalar(s[0]);
        assert(vstd::utf8::encode_scalar(s[0] as u32).len() == utf8_width(s[0]));
    }
    if s.len() == 0 || utf8_width(s[0]) > max {
        assert(r =~= s.take(0));
        if s.len() > 0 {
            let one = s.take(1);
            assert(one[0] == s[0]);
            assert(one.drop_first() =~= Seq::empty());
            reveal_with_fuel(vstd::utf8::encode_utf8, 2);
        }
    } else {
        let rest = s.drop_first();
        let t = clamped(rest, max - utf8_width(s[0]));
        law_clamped(rest, max - utf8_width(s[0]));
        assert(r =~= s.take(r.len() as int));
        assert(r.drop_first() =~= t);
        if r.len() < s.len() {
            let more = s.take(r.len() as int + 1);
            assert(more[0] == s[0]);
            assert(more.drop_first() =~= rest.take(t.len() as int + 1));
        }
    }
}

/// Clamps to at most `max_bytes`, never splitting a character.
pub fn clamp_utf8(value: &str, max_bytes: usize) -> (r: &str)
    ensures
        r@ == clamped(value@, max_bytes as int),
{
    let cs: Vec<char> = to_chars(value);
    let mut left: usize = max_bytes;
    let mut i: usize = 0;
    assert(value@.skip(0) =~= value@);
    assert(value@.take(0) + clamped(value@, max_bytes as int) =~= clamped(value@, max_bytes as int));
    loop
        invariant
            cs@ == value@,
            i <= cs@.len(),
            clamped(value@, max_bytes as int) == value@.take(i as int) + clamped(
                value@.skip(i as int),
                left as int,
            ),
        ensures
            i <= value@.len(),
            clamped(value@, max_bytes as int) =~= value@.take(i as int),
        decreases cs.len() - i,
    {
        if i == cs.len() {
            break;
        }
        let n: u32 = cs[i] as u32;
        let width: usize = if n < 0x80 {
            1
        } else if n < 0x800 {
            2
        } else if n < 0x10000 {
            3
        } else {
            4
        };
        assert(value@.skip(i as int)[0] == cs@[i as int]);
        if width > left {
            break;
        }
        proof {
            assert(value@.skip(i as int).drop_first() =~= value@.skip(i + 1));
            let tail = clamped(value@.skip(i + 1), left - width);
            assert(value@.take(i as int) + (seq![cs@[i as int]] + tail) =~= value@.take(i + 1)
                + tail);
        }
        left = left - width;
        i = i + 1;
    }
    assert(value@.subrange(0, i as int) =~= value@.take(i as int));
    value.substring_char(0, i)
}

} // verus!
