//! The content classifier: a pure function from a message body to the
//! category the presentation layer renders it as.
//!
//! A body whose trimmed text ends in `.gif` renders as an image; one whose
//! trimmed text is a single character in one of the common emoji ranges
//! renders as a large emoji; anything else renders as plain text. The image
//! check comes first, exactly in that order.

use vstd::prelude::*;

verus! {

/// How a message body is to be rendered.
#[derive(Clone, Copy, PartialEq, Eq, Structural, Debug)]
pub enum RenderCategory {
    Image,
    SingleEmoji,
    Text,
}

/// Unicode whitespace, the set trimmed from both ends of a body.
pub open spec fn spec_is_space(c: char) -> bool {
    ||| 0x9 <= c as u32 <= 0xD
    ||| c as u32 == 0x20
    ||| c as u32 == 0x85
    ||| c as u32 == 0xA0
    ||| c as u32 == 0x1680
    ||| 0x2000 <= c as u32 <= 0x200A
    ||| c as u32 == 0x2028
    ||| c as u32 == 0x2029
    ||| c as u32 == 0x202F
    ||| c as u32 == 0x205F
    ||| c as u32 == 0x3000
}

/// Whether a character's code point falls in one of the common emoji ranges.
pub open spec fn spec_is_emoji(c: char) -> bool {
    ||| 0x1F600 <= c as u32 <= 0x1F64F
    ||| 0x1F300 <= c as u32 <= 0x1F5FF
    ||| 0x1F680 <= c as u32 <= 0x1F6FF
    ||| 0x1F700 <= c as u32 <= 0x1F77F
    ||| 0x2600 <= c as u32 <= 0x26FF
    ||| 0x2700 <= c as u32 <= 0x27BF
    ||| 0xFE00 <= c as u32 <= 0xFE0F
    ||| 0x1F900 <= c as u32 <= 0x1F9FF
    ||| 0x1F018 <= c as u32 <= 0x1F270
}

/// Text with its leading whitespace removed.
pub open spec fn trim_front(s: Seq<char>) -> Seq<char>
    decreases s.len(),
{
    if s.len() > 0 && spec_is_space(s[0]) {
        trim_front(s.drop_first())
    } else {
        s
    }
}

/// Text with its trailing whitespace removed.
pub open spec fn trim_back(s: Seq<char>) -> Seq<char>
    decreases s.len(),
{
    if s.len() > 0 && spec_is_space(s.last()) {
        trim_back(s.drop_last())
    } else {
        s
    }
}

/// Text with whitespace removed from both ends.
pub open spec fn spec_trim(s: Seq<char>) -> Seq<char> {
    trim_back(trim_front(s))
}

/// Whether trimmed text ends with the four characters `.gif`.
pub open spec fn spec_ends_with_gif(t: Seq<char>) -> bool {
    &&& t.len() >= 4
    &&& t[t.len() - 4] == '.'
    &&& t[t.len() - 3] == 'g'
    &&& t[t.len() - 2] == 'i'
    &&& t[t.len() - 1] == 'f'
}

/// The rendering category of a message body: image if the trimmed body ends
/// in `.gif`, then a single emoji if the trimmed body is exactly one emoji
/// character, else plain text.
pub open spec fn spec_classify(s: Seq<char>) -> RenderCategory {
    let t = spec_trim(s);
    if spec_ends_with_gif(t) {
        RenderCategory::Image
    } else if t.len() == 1 && spec_is_emoji(t[0]) {
        RenderCategory::SingleEmoji
    } else {
        RenderCategory::Text
    }
}

/// Whether `c` is Unicode whitespace.
fn char_is_space(c: char) -> (r: bool)
    ensures
        r == spec_is_space(c),
{
    let u = c as u32;
    (0x9 <= u && u <= 0xD) || u == 0x20 || u == 0x85 || u == 0xA0 || u == 0x1680 || (0x2000 <= u
        && u <= 0x200A) || u == 0x2028 || u == 0x2029 || u == 0x202F || u == 0x205F || u == 0x3000
}

/// Whether `c` falls in one of the common emoji ranges.
fn char_is_emoji(c: char) -> (r: bool)
    ensures
        r == spec_is_emoji(c),
{
    let u = c as u32;
    (0x1F600 <= u && u <= 0x1F64F) || (0x1F300 <= u && u <= 0x1F5FF) || (0x1F680 <= u && u
        <= 0x1F6FF) || (0x1F700 <= u && u <= 0x1F77F) || (0x2600 <= u && u <= 0x26FF) || (0x2700
        <= u && u <= 0x27BF) || (0xFE00 <= u && u <= 0xFE0F) || (0x1F900 <= u && u <= 0x1F9FF) || (
    0x1F018 <= u && u <= 0x1F270)
}

/// Classify a message body for rendering.
pub fn classify(body: &str) -> (r: RenderCategory)
    ensures
        r == spec_classify(body@),
{
    let n = body.unicode_len();
    let mut v: Vec<char> = Vec::new();
    proof {
        assert(v@ =~= body@.take(0));
    }
    let mut i: usize = 0;
    while i < n
        invariant
            n == body@.len(),
            i <= n,
            v@ == body@.take(i as int),
        decreases n - i,
    {
        let c = body.get_char(i);
        v.push(c);
        proof {
            assert(body@.take(i as int).push(body@[i as int]) =~= body@.take(i as int + 1));
        }
        i += 1;
    }
    proof {
        assert(body@.take(n as int) =~= body@);
    }

    // Strip leading whitespace.
    let ghost s = v@;
    let mut a: usize = 0;
    proof {
        assert(s.skip(0) =~= s);
    }
    while a < n && char_is_space(v[a])
        invariant
            n == v.len(),
            s == v@,
            a <= n,
            trim_front(s) == trim_front(s.skip(a as int)),
        decreases n - a,
    {
        proof {
            assert(s.skip(a as int)[0] == s[a as int]);
            assert(s.skip(a as int).drop_first() =~= s.skip(a as int + 1));
        }
        a += 1;
    }
    proof {
        if a == n {
            assert(s.skip(n as int) =~= Seq::<char>::empty());
        }
        assert(trim_front(s) == s.subrange(a as int, n as int)) by {
            assert(s.skip(a as int) =~= s.subrange(a as int, n as int));
        }
    }

    // Strip trailing whitespace from what is left.
    let mut b: usize = n;
    proof {
        assert(spec_trim(s) == trim_back(s.subrange(a as int, b as int)));
    }
    while b > a && char_is_space(v[b - 1])
        invariant
            n == v.len(),
            s == v@,
            a <= b <= n,
            spec_trim(s) == trim_back(s.subrange(a as int, b as int)),
        decreases b,
    {
        proof {
            let sub = s.subrange(a as int, b as int);
            assert(sub.last() == s[b - 1]);
            assert(sub.drop_last() =~= s.subrange(a as int, b as int - 1));
        }
        b -= 1;
    }
    proof {
        let sub = s.subrange(a as int, b as int);
        if b == a {
            assert(sub =~= Seq::<char>::empty());
        }
        assert(spec_trim(s) == sub);
    }

    let ghost t = spec_trim(s);
    // The image check comes first; category consumers format by the chosen
    // category, so the order is part of the contract.
    if b - a >= 4 && v[b - 4] == '.' && v[b - 3] == 'g' && v[b - 2] == 'i' && v[b - 1] == 'f' {
        proof {
            assert(t[t.len() - 4] == s[b - 4]);
            assert(t[t.len() - 3] == s[b - 3]);
            assert(t[t.len() - 2] == s[b - 2]);
            assert(t[t.len() - 1] == s[b - 1]);
        }
        RenderCategory::Image
    } else {
        proof {
            if t.len() >= 4 {
                assert(t[t.len() - 4] == s[b - 4]);
                assert(t[t.len() - 3] == s[b - 3]);
                assert(t[t.len() - 2] == s[b - 2]);
                assert(t[t.len() - 1] == s[b - 1]);
            }
        }
        if b - a == 1 && char_is_emoji(v[a]) {
            proof {
                assert(t[0] == s[a as int]);
            }
            RenderCategory::SingleEmoji
        } else {
            proof {
                if t.len() == 1 {
                    assert(t[0] == s[a as int]);
                }
            }
            RenderCategory::Text
        }
    }
}

} // verus!
