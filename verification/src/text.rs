//! Text helpers shared by the library: whitespace tokenization and
//! joining an argument vector back into one command line.

use vstd::prelude::*;

verus! {

/// A token separator: a character of Unicode's White_Space set, the set
/// that `char::is_whitespace` recognizes.
pub open spec fn is_space(c: char) -> bool {
    let u = c as u32;
    ||| u == 0x20
    ||| (0x09 <= u && u <= 0x0D)
    ||| u == 0x85
    ||| u == 0xA0
    ||| u == 0x1680
    ||| (0x2000 <= u && u <= 0x200A)
    ||| u == 0x2028
    ||| u == 0x2029
    ||| u == 0x202F
    ||| u == 0x205F
    ||| u == 0x3000
}

fn is_space_char(c: char) -> (r: bool)
    ensures
        r == is_space(c),
{
    let u = c as u32;
    u == 0x20 || (0x09 <= u && u <= 0x0D) || u == 0x85 || u == 0xA0 || u == 0x1680 || (0x2000 <= u
        && u <= 0x200A) || u == 0x2028 || u == 0x2029 || u == 0x202F || u == 0x205F || u == 0x3000
}

/// The tokens of `s` from position `i` on, where `cur` is the partial token
/// read so far: maximal runs of non-space characters, in order.
pub open spec fn split_ws_from(s: Seq<char>, i: int, cur: Seq<char>) -> Seq<Seq<char>>
    decreases s.len() - i,
{
    if i < 0 || i >= s.len() {
        if cur.len() == 0 {
            Seq::empty()
        } else {
            seq![cur]
        }
    } else if is_space(s[i]) {
        if cur.len() == 0 {
            split_ws_from(s, i + 1, Seq::empty())
        } else {
            seq![cur] + split_ws_from(s, i + 1, Seq::empty())
        }
    } else {
        split_ws_from(s, i + 1, cur.push(s[i]))
    }
}

/// The whitespace-separated tokens of `s`: contiguous non-space runs, with
/// runs of separators collapsed and leading or trailing separators ignored.
pub open spec fn split_ws(s: Seq<char>) -> Seq<Seq<char>> {
    split_ws_from(s, 0, Seq::empty())
}

/// Splits `s` into its whitespace-separated tokens.
pub fn split_whitespace_tokens(s: &str) -> (tokens: Vec<String>)
    ensures
        tokens.deep_view() == split_ws(s@),
{
    let n: usize = s.unicode_len();
    let mut tokens: Vec<String> = Vec::new();
    let mut cur: String = String::new();
    let mut i: usize = 0;
    while i < n
        invariant
            n == s@.len(),
            i <= n,
            split_ws(s@) == tokens.deep_view() + split_ws_from(s@, i as int, cur@),
        decreases n - i,
    {
        let ghost prev_tokens = tokens.deep_view();
        let ghost prev_cur = cur@;
        let c = s.get_char(i);
        if is_space_char(c) {
            if !cur.as_str().is_empty() {
                tokens.push(cur);
                cur = String::new();
                proof {
                    assert(tokens.deep_view() =~= prev_tokens + seq![prev_cur]);
                    assert(split_ws_from(s@, i as int, prev_cur) == seq![prev_cur]
                        + split_ws_from(s@, i + 1, Seq::empty()));
                    assert(prev_tokens + (seq![prev_cur] + split_ws_from(s@, i + 1, Seq::empty()))
                        =~= (prev_tokens + seq![prev_cur]) + split_ws_from(
                        s@,
                        i + 1,
                        Seq::empty(),
                    ));
                }
            } else {
                proof {
                    assert(prev_cur =~= Seq::<char>::empty());
                }
            }
        } else {
            let piece = s.substring_char(i, i + 1);
            cur.append(piece);
            proof {
                assert(cur@ =~= prev_cur.push(s@[i as int]));
            }
        }
        i = i + 1;
    }
    if !cur.as_str().is_empty() {
        let ghost prev_tokens = tokens.deep_view();
        let ghost prev_cur = cur@;
        tokens.push(cur);
        proof {
            assert(tokens.deep_view() =~= prev_tokens + seq![prev_cur]);
        }
    } else {
        proof {
            assert(cur@ =~= Seq::<char>::empty());
            assert(tokens.deep_view() + Seq::<Seq<char>>::empty() =~= tokens.deep_view());
        }
    }
    tokens
}

/// A sequence of characters free of separators.
pub open spec fn no_space(t: Seq<char>) -> bool {
    forall|j: int| 0 <= j < t.len() ==> !is_space(#[trigger] t[j])
}

/// Every token is non-empty and free of separators.
pub open spec fn solid_tokens(ts: Seq<Seq<char>>) -> bool {
    forall|k: int| 0 <= k < ts.len() ==> (#[trigger] ts[k]).len() > 0 && no_space(ts[k])
}

proof fn lemma_split_ws_from_tokens(s: Seq<char>, i: int, cur: Seq<char>)
    requires
        no_space(cur),
    ensures
        solid_tokens(split_ws_from(s, i, cur)),
    decreases s.len() - i,
{
    let ts = split_ws_from(s, i, cur);
    if i < 0 || i >= s.len() {
        if cur.len() > 0 {
            assert(ts == seq![cur]);
            assert(ts[0] == cur);
        }
    } else if is_space(s[i]) {
        lemma_split_ws_from_tokens(s, i + 1, Seq::empty());
        let rest = split_ws_from(s, i + 1, Seq::empty());
        if cur.len() > 0 {
            assert(ts == seq![cur] + rest);
            assert forall|k: int| 0 <= k < ts.len() implies (#[trigger] ts[k]).len() > 0
                && no_space(ts[k]) by {
                if k == 0 {
                    assert(ts[0] == cur);
                } else {
                    assert(ts[k] == rest[k - 1]);
                }
            }
        }
    } else {
        assert forall|j: int| 0 <= j < cur.push(s[i]).len() implies !is_space(
            cur.push(s[i])[j],
        ) by {
            if j == cur.len() {
                assert(cur.push(s[i])[j] == s[i]);
            }
        }
        lemma_split_ws_from_tokens(s, i + 1, cur.push(s[i]));
    }
}

/// Every token of a whitespace split is non-empty and holds no separator.
pub proof fn lemma_split_ws_tokens(s: Seq<char>)
    ensures
        solid_tokens(split_ws(s)),
{
    lemma_split_ws_from_tokens(s, 0, Seq::empty());
}

/// The arguments joined into one command line, one space between arguments.
pub open spec fn join_spaces(args: Seq<Seq<char>>) -> Seq<char>
    decreases args.len(),
{
    if args.len() == 0 {
        Seq::empty()
    } else if args.len() == 1 {
        args[0]
    } else {
        join_spaces(args.drop_last()) + seq![' '] + args.last()
    }
}

/// Joins the arguments into one command line, one space between arguments.
pub fn join_args(args: &Vec<String>) -> (r: String)
    ensures
        r@ == join_spaces(args.deep_view()),
{
    let mut r = String::new();
    let mut i: usize = 0;
    while i < args.len()
        invariant
            i <= args.len(),
            r@ == join_spaces(args.deep_view().take(i as int)),
        decreases args.len() - i,
    {
        let ghost prev = r@;
        if i > 0 {
            r.append(" ");
        }
        r.append(args[i].as_str());
        proof {
            let dv = args.deep_view();
            assert(dv.take(i + 1).drop_last() =~= dv.take(i as int));
            assert(dv.take(i + 1).last() == dv[i as int]);
            if i == 0 {
                assert(r@ =~= dv.take(1)[0]);
            } else {
                reveal_strlit(" ");
                assert(" "@ =~= seq![' ']);
                assert(r@ =~= join_spaces(dv.take(i as int)) + seq![' '] + dv[i as int]);
            }
        }
        i = i + 1;
    }
    proof {
        assert(args.deep_view().take(args.len() as int) =~= args.deep_view());
    }
    r
}

} // verus!
