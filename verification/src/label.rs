//! Recognition of the label "utf-7" in protocol text: leading and trailing
//! whitespace is skipped, the letters `u`, `t` and `f` are matched in either
//! case, and `-7` is matched exactly.

use vstd::prelude::*;

verus! {

/// The whitespace bytes that may surround an encoding label: tab, line feed,
/// form feed, carriage return and space.
pub open spec fn is_label_whitespace(b: u8) -> bool {
    b == 0x09 || b == 0x0A || b == 0x0C || b == 0x0D || b == 0x20
}

/// A label names UTF-7 when, between label whitespace, it consists of exactly
/// the five bytes `u t f - 7`, with the letters in either case for `u`, `t`
/// and `f`, and `-` and `7` matched exactly.
pub open spec fn is_utf7_label_spec(s: Seq<u8>) -> bool {
    exists|i: int|
        #![trigger s[i]]
        {
            &&& 0 <= i
            &&& i + 5 <= s.len()
            &&& (forall|j: int| 0 <= j < i ==> is_label_whitespace(#[trigger] s[j]))
            &&& (s[i] == 0x75 || s[i] == 0x55)
            &&& (s[i + 1] == 0x74 || s[i + 1] == 0x54)
            &&& (s[i + 2] == 0x66 || s[i + 2] == 0x46)
            &&& s[i + 3] == 0x2D
            &&& s[i + 4] == 0x37
            &&& (forall|j: int| i + 5 <= j < s.len() ==> is_label_whitespace(#[trigger] s[j]))
        }
}

/// Decides whether a raw protocol label names UTF-7.
pub fn is_utf7_label(label: &[u8]) -> (r: bool)
    ensures
        r == is_utf7_label_spec(label@),
{
    let n = label.len();
    let mut i: usize = 0;
    while i < n && (label[i] == 0x09 || label[i] == 0x0A || label[i] == 0x0C || label[i] == 0x0D
        || label[i] == 0x20)
        invariant
            i <= n,
            n == label@.len(),
            forall|j: int| 0 <= j < i ==> is_label_whitespace(#[trigger] label@[j]),
        decreases n - i,
    {
        i += 1;
    }
    if i == n {
        assert(!is_utf7_label_spec(label@)) by {
            assert forall|w: int|
                #![trigger label@[w]]
                !(0 <= w && w + 5 <= label@.len() && (label@[w] == 0x75 || label@[w] == 0x55)) by {
                if 0 <= w && w + 5 <= label@.len() {
                    assert(is_label_whitespace(label@[w]));
                }
            }
        }
        return false;
    }
    if !(label[i] == 0x75 || label[i] == 0x55) {
        assert(!is_utf7_label_spec(label@)) by {
            assert forall|w: int|
                #![trigger label@[w]]
                !(0 <= w && w + 5 <= label@.len() && (label@[w] == 0x75 || label@[w] == 0x55)
                    && (forall|j: int| 0 <= j < w ==> is_label_whitespace(#[trigger] label@[j])))
                by {
                if 0 <= w && w + 5 <= label@.len() && (label@[w] == 0x75 || label@[w] == 0x55)
                    && (forall|j: int| 0 <= j < w ==> is_label_whitespace(#[trigger] label@[j])) {
                    if w < i {
                        assert(is_label_whitespace(label@[w]));
                    } else if w > i {
                        assert(is_label_whitespace(label@[i as int]));
                    }
                }
            }
        }
        return false;
    }
    // label[i] is `u` or `U`
    if n - i < 5 {
        assert(!is_utf7_label_spec(label@)) by {
            assert forall|w: int|
                #![trigger label@[w]]
                !(0 <= w && w + 5 <= label@.len() && (label@[w] == 0x75 || label@[w] == 0x55)
                    && (forall|j: int| 0 <= j < w ==> is_label_whitespace(#[trigger] label@[j])))
                by {
                if 0 <= w && w + 5 <= label@.len() && (label@[w] == 0x75 || label@[w] == 0x55)
                    && (forall|j: int| 0 <= j < w ==> is_label_whitespace(#[trigger] label@[j])) {
                    if w < i {
                        assert(is_label_whitespace(label@[w]));
                    } else if w > i {
                        assert(is_label_whitespace(label@[i as int]));
                    }
                }
            }
        }
        return false;
    }
    let inside_ok = (label[i + 1] == 0x74 || label[i + 1] == 0x54) && (label[i + 2] == 0x66
        || label[i + 2] == 0x46) && label[i + 3] == 0x2D && label[i + 4] == 0x37;
    let mut k: usize = i + 5;
    let mut tail_ok = true;
    while k < n
        invariant
            i + 5 <= k <= n,
            n == label@.len(),
            tail_ok <==> (forall|j: int|
                i + 5 <= j < k ==> is_label_whitespace(#[trigger] label@[j])),
        decreases n - k,
    {
        let b = label[k];
        if !(b == 0x09 || b == 0x0A || b == 0x0C || b == 0x0D || b == 0x20) {
            tail_ok = false;
        }
        k += 1;
    }
    let r = inside_ok && tail_ok;
    proof {
        if r {
            assert(is_utf7_label_spec(label@)) by {
                let w = i as int;
                assert(0 <= w && w + 5 <= label@.len() && (label@[w] == 0x75 || label@[w] == 0x55)
                    && (label@[w + 1] == 0x74 || label@[w + 1] == 0x54) && (label@[w + 2] == 0x66
                    || label@[w + 2] == 0x46) && label@[w + 3] == 0x2D && label@[w + 4] == 0x37
                    && (forall|j: int| 0 <= j < w ==> is_label_whitespace(#[trigger] label@[j]))
                    && (forall|j: int|
                    w + 5 <= j < label@.len() ==> is_label_whitespace(#[trigger] label@[j])));
            }
        } else {
            assert(!is_utf7_label_spec(label@)) by {
                assert forall|w: int|
                    #![trigger label@[w]]
                    !(0 <= w && w + 5 <= label@.len() && (label@[w] == 0x75 || label@[w] == 0x55)
                        && (label@[w + 1] == 0x74 || label@[w + 1] == 0x54) && (label@[w + 2]
                        == 0x66 || label@[w + 2] == 0x46) && label@[w + 3] == 0x2D && label@[w + 4]
                        == 0x37 && (forall|j: int|
                        0 <= j < w ==> is_label_whitespace(#[trigger] label@[j])) && (forall|j: int|
                        w + 5 <= j < label@.len() ==> is_label_whitespace(#[trigger] label@[j])))
                    by {
                    if 0 <= w && w + 5 <= label@.len() && (label@[w] == 0x75 || label@[w] == 0x55)
                        && (forall|j: int|
                        0 <= j < w ==> is_label_whitespace(#[trigger] label@[j])) {
                        if w < i {
                            assert(is_label_whitespace(label@[w]));
                        } else if w > i {
                            assert(is_label_whitespace(label@[i as int]));
                        }
                    }
                }
            }
        }
    }
    r
}

} // verus!
