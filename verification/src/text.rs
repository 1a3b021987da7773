//! Byte-level text utilities: splitting a buffer into lines and a line
//! into whitespace-separated tokens.

use vstd::prelude::*;

verus! {

/// ASCII whitespace as the format understands it: space, tab, carriage
/// return and line feed.
pub open spec fn is_ws(b: u8) -> bool {
    b == 32 || b == 9 || b == 13 || b == 10
}

/// The tokens remaining in `s` when the token accumulated so far is `cur`:
/// maximal runs of non-whitespace bytes, in order.
pub open spec fn tokens_from(s: Seq<u8>, cur: Seq<u8>) -> Seq<Seq<u8>>
    decreases s.len(),
{
    if s.len() == 0 {
        if cur.len() == 0 {
            seq![]
        } else {
            seq![cur]
        }
    } else if is_ws(s[0]) {
        if cur.len() == 0 {
            tokens_from(s.subrange(1, s.len() as int), seq![])
        } else {
            seq![cur] + tokens_from(s.subrange(1, s.len() as int), seq![])
        }
    } else {
        tokens_from(s.subrange(1, s.len() as int), cur.push(s[0]))
    }
}

/// The whitespace-separated tokens of `s`, in order.
pub open spec fn tokens_of(s: Seq<u8>) -> Seq<Seq<u8>> {
    tokens_from(s, seq![])
}

/// The views of a sequence of byte vectors.
pub open spec fn seq_views(s: Seq<Vec<u8>>) -> Seq<Seq<u8>> {
    s.map_values(|v: Vec<u8>| v@)
}

/// Splits a line into its whitespace-separated tokens.
pub fn split_ws(line: &Vec<u8>) -> (r: Vec<Vec<u8>>)
    ensures
        seq_views(r@) == tokens_of(line@),
{
    let mut acc: Vec<Vec<u8>> = Vec::new();
    let mut cur: Vec<u8> = Vec::new();
    let mut i: usize = 0;
    proof {
        assert(line@.subrange(0, line@.len() as int) =~= line@);
        assert(seq_views(acc@) =~= Seq::<Seq<u8>>::empty());
        assert(Seq::<Seq<u8>>::empty() + tokens_from(line@, cur@) =~= tokens_from(line@, cur@));
    }
    while i < line.len()
        invariant
            i <= line.len(),
            tokens_of(line@) == seq_views(acc@) + tokens_from(
                line@.subrange(i as int, line@.len() as int),
                cur@,
            ),
        decreases line.len() - i,
    {
        let ghost rest = line@.subrange(i as int, line@.len() as int);
        let ghost rest1 = line@.subrange(i as int + 1, line@.len() as int);
        proof {
            assert(rest[0] == line@[i as int]);
            assert(rest.subrange(1, rest.len() as int) =~= rest1);
        }
        let b = line[i];
        if b == 32 || b == 9 || b == 13 || b == 10 {
            if cur.len() > 0 {
                let ghost acc0 = acc@;
                let ghost cur0 = cur@;
                proof {
                    assert(tokens_from(rest, cur0) == seq![cur0] + tokens_from(
                        rest1,
                        Seq::<u8>::empty(),
                    ));
                }
                acc.push(cur);
                cur = Vec::new();
                proof {
                    assert(seq_views(acc@) =~= seq_views(acc0).push(cur0));
                    assert(seq_views(acc0).push(cur0) + tokens_from(rest1, Seq::<u8>::empty())
                        =~= seq_views(acc0) + (seq![cur0] + tokens_from(
                        rest1,
                        Seq::<u8>::empty(),
                    )));
                }
            } else {
                proof {
                    assert(tokens_from(rest, cur@) == tokens_from(rest1, Seq::<u8>::empty()));
                    assert(cur@ =~= Seq::<u8>::empty());
                }
            }
        } else {
            let ghost cur0 = cur@;
            cur.push(b);
            proof {
                assert(tokens_from(rest, cur0) == tokens_from(rest1, cur0.push(b)));
            }
        }
        i = i + 1;
    }
    proof {
        assert(line@.subrange(line@.len() as int, line@.len() as int) =~= Seq::<u8>::empty());
    }
    if cur.len() > 0 {
        let ghost acc0 = acc@;
        let ghost cur0 = cur@;
        acc.push(cur);
        proof {
            assert(seq_views(acc@) =~= seq_views(acc0).push(cur0));
            assert(seq_views(acc0) + seq![cur0] =~= seq_views(acc0).push(cur0));
        }
    }
    proof {
        assert(seq_views(acc@) + Seq::<Seq<u8>>::empty() =~= seq_views(acc@));
    }
    acc
}

/// The lines remaining in `s` when the line accumulated so far is `cur`:
/// maximal runs separated by line feeds, with no trailing empty line after
/// a final line feed.
pub open spec fn lines_from(s: Seq<u8>, cur: Seq<u8>) -> Seq<Seq<u8>>
    decreases s.len(),
{
    if s.len() == 0 {
        if cur.len() == 0 {
            seq![]
        } else {
            seq![cur]
        }
    } else if s[0] == 10 {
        seq![cur] + lines_from(s.subrange(1, s.len() as int), seq![])
    } else {
        lines_from(s.subrange(1, s.len() as int), cur.push(s[0]))
    }
}

/// The lines of a byte buffer, split on line feeds.
pub open spec fn lines_of(s: Seq<u8>) -> Seq<Seq<u8>> {
    lines_from(s, seq![])
}

/// Splits a byte buffer into its lines. A carriage return before a line
/// feed is left at the end of its line; the tokenizer treats it as
/// whitespace, so it never reaches a token.
pub fn split_lines(content: &[u8]) -> (r: Vec<Vec<u8>>)
    ensures
        seq_views(r@) == lines_of(content@),
{
    let mut acc: Vec<Vec<u8>> = Vec::new();
    let mut cur: Vec<u8> = Vec::new();
    let mut i: usize = 0;
    proof {
        assert(content@.subrange(0, content@.len() as int) =~= content@);
        assert(seq_views(acc@) =~= Seq::<Seq<u8>>::empty());
        assert(Seq::<Seq<u8>>::empty() + lines_from(content@, cur@) =~= lines_from(
            content@,
            cur@,
        ));
    }
    while i < content.len()
        invariant
            i <= content.len(),
            lines_of(content@) == seq_views(acc@) + lines_from(
                content@.subrange(i as int, content@.len() as int),
                cur@,
            ),
        decreases content.len() - i,
    {
        let ghost rest = content@.subrange(i as int, content@.len() as int);
        let ghost rest1 = content@.subrange(i as int + 1, content@.len() as int);
        proof {
            assert(rest[0] == content@[i as int]);
            assert(rest.subrange(1, rest.len() as int) =~= rest1);
        }
        let b = content[i];
        if b == 10 {
            let ghost acc0 = acc@;
            let ghost cur0 = cur@;
            proof {
                assert(lines_from(rest, cur0) == seq![cur0] + lines_from(
                    rest1,
                    Seq::<u8>::empty(),
                ));
            }
            acc.push(cur);
            cur = Vec::new();
            proof {
                assert(seq_views(acc@) =~= seq_views(acc0).push(cur0));
                assert(seq_views(acc0).push(cur0) + lines_from(rest1, Seq::<u8>::empty())
                    =~= seq_views(acc0) + (seq![cur0] + lines_from(rest1, Seq::<u8>::empty())));
            }
        } else {
            let ghost cur0 = cur@;
            cur.push(b);
            proof {
                assert(lines_from(rest, cur0) == lines_from(rest1, cur0.push(b)));
            }
        }
        i = i + 1;
    }
    proof {
        assert(content@.subrange(content@.len() as int, content@.len() as int)
            =~= Seq::<u8>::empty());
    }
    if cur.len() > 0 {
        let ghost acc0 = acc@;
        let ghost cur0 = cur@;
        acc.push(cur);
        proof {
            assert(seq_views(acc@) =~= seq_views(acc0).push(cur0));
            assert(seq_views(acc0) + seq![cur0] =~= seq_views(acc0).push(cur0));
        }
    }
    proof {
        assert(seq_views(acc@) + Seq::<Seq<u8>>::empty() =~= seq_views(acc@));
    }
    acc
}

} // verus!
