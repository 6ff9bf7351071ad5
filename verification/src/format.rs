use vstd::prelude::*;

verus! {

/// `i` marks the single `.` of a well-formed token text: it is the only dot
/// and leaves a non-empty segment on each side.
pub open spec fn is_split_point(t: Seq<char>, i: int) -> bool {
    &&& 1 <= i && i + 2 <= t.len()
    &&& t[i] == '.'
    &&& forall|j: int| 0 <= j < t.len() && j != i ==> t[j] != '.'
}

/// The text splits into exactly two non-empty `.`-separated segments.
pub open spec fn token_format_ok(t: Seq<char>) -> bool {
    exists|i: int| is_split_point(t, i)
}

/// The position of the separator of a well-formed token text.
pub open spec fn split_index(t: Seq<char>) -> int {
    choose|i: int| is_split_point(t, i)
}

/// The first segment of a well-formed token text: the encoded payload.
pub open spec fn payload_segment(t: Seq<char>) -> Seq<char> {
    t.subrange(0, split_index(t))
}

/// The second segment of a well-formed token text: the encoded signature.
pub open spec fn signature_segment(t: Seq<char>) -> Seq<char> {
    t.subrange(split_index(t) + 1, t.len() as int)
}

/// A token text has at most one split point.
pub proof fn lemma_split_point_unique(t: Seq<char>, i: int, j: int)
    requires
        is_split_point(t, i),
        is_split_point(t, j),
    ensures
        i == j,
{
    if i != j {
        assert(t[j] != '.');
    }
}

/// Joining two non-empty dot-free segments with a single `.` yields a
/// well-formed token text that splits back into exactly those segments.
pub proof fn lemma_join_then_split(a: Seq<char>, b: Seq<char>)
    requires
        a.len() > 0,
        b.len() > 0,
        forall|i: int| 0 <= i < a.len() ==> a[i] != '.',
        forall|i: int| 0 <= i < b.len() ==> b[i] != '.',
    ensures
        token_format_ok(a + seq!['.'] + b),
        split_index(a + seq!['.'] + b) == a.len() as int,
        payload_segment(a + seq!['.'] + b) == a,
        signature_segment(a + seq!['.'] + b) == b,
{
    let t = a + seq!['.'] + b;
    let d = a.len() as int;
    assert(t[d] == '.');
    assert forall|j: int| 0 <= j < t.len() && j != d implies t[j] != '.' by {
        if j < d {
            assert(t[j] == a[j]);
        } else {
            assert(t[j] == b[j - d - 1]);
        }
    }
    assert(is_split_point(t, d));
    assert(is_split_point(t, split_index(t)));
    lemma_split_point_unique(t, split_index(t), d);
    assert(payload_segment(t) =~= a);
    assert(signature_segment(t) =~= b);
}

/// Splits a token into its two segments when its text is well-formed: exactly
/// one `.`, with a non-empty segment on each side.
pub(crate) fn split_token<'a>(token: &'a str) -> (r: Option<(&'a str, &'a str)>)
    ensures
        r is Some <==> token_format_ok(token@),
        r is Some ==> r->Some_0.0@ == payload_segment(token@),
        r is Some ==> r->Some_0.1@ == signature_segment(token@),
{
    let n = token.unicode_len();
    let mut i: usize = 0;
    let mut first: usize = n;
    while i < n
        invariant
            i <= n,
            token@.len() == n as nat,
            first == n || first < i,
            first == n ==> forall|j: int| 0 <= j < i ==> token@[j] != '.',
            first < n ==> token@[first as int] == '.',
            first < n ==> forall|j: int| 0 <= j < i && j != first ==> token@[j] != '.',
        decreases n - i,
    {
        let c = token.get_char(i);
        if c == '.' {
            if first < n {
                proof {
                    assert forall|k: int| !is_split_point(token@, k) by {
                        if is_split_point(token@, k) {
                            if k != first as int {
                                assert(token@[first as int] != '.');
                            } else {
                                assert(token@[i as int] != '.');
                            }
                        }
                    }
                }
                return None;
            }
            first = i;
        }
        i += 1;
    }
    if first == n || first == 0 || first + 1 == n {
        proof {
            assert forall|k: int| !is_split_point(token@, k) by {
                if is_split_point(token@, k) {
                    if first == n {
                        assert(token@[k] != '.');
                    } else {
                        if k != first as int {
                            assert(token@[k] != '.');
                        }
                    }
                }
            }
        }
        return None;
    }
    proof {
        assert(is_split_point(token@, first as int));
        assert(is_split_point(token@, split_index(token@)));
        lemma_split_point_unique(token@, split_index(token@), first as int);
    }
    let payload_text = token.substring_char(0, first);
    let signature_text = token.substring_char(first + 1, n);
    Some((payload_text, signature_text))
}

} // verus!
