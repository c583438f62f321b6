//! Links to files, as a directory listing shows them.

use vstd::prelude::*;
use vstd::string::StrSliceExecFns;
use vstd::string::StringExecFns;

verus! {

/// `path` without its occurrences of "./", found from left to right; what
/// was skipped as part of one occurrence is not part of another.
pub open spec fn without_dot_slash(path: Seq<char>) -> Seq<char>
    decreases path.len(),
{
    if path.len() == 0 {
        path
    } else if path.len() >= 2 && path[0] == '.' && path[1] == '/' {
        without_dot_slash(path.skip(2))
    } else {
        seq![path[0]] + without_dot_slash(path.skip(1))
    }
}

/// The link to `path`: a slash, then the path without its occurrences of "./".
pub open spec fn href_of(path: Seq<char>) -> Seq<char> {
    seq!['/'] + without_dot_slash(path)
}

/// Where no "./" starts at position `k`, the character there is kept.
proof fn lemma_kept(path: Seq<char>, k: int)
    requires
        0 <= k < path.len(),
        !(path[k] == '.' && k + 1 < path.len() && path[k + 1] == '/'),
    ensures
        without_dot_slash(path.skip(k)) == seq![path[k]] + without_dot_slash(path.skip(k + 1)),
{
    assert(path.skip(k).skip(1) =~= path.skip(k + 1));
}

/// Where a "./" starts at position `k`, both characters are skipped.
proof fn lemma_skipped(path: Seq<char>, k: int)
    requires
        0 <= k,
        k + 1 < path.len(),
        path[k] == '.',
        path[k + 1] == '/',
    ensures
        without_dot_slash(path.skip(k)) == without_dot_slash(path.skip(k + 2)),
{
    assert(path.skip(k).skip(2) =~= path.skip(k + 2));
}

/// The link to `path` in a directory listing.
pub fn format_href(path: &str) -> (href: String)
    ensures
        href@ == href_of(path@),
{
    broadcast use vstd::string::group_string_axioms;

    let len = path.unicode_len();
    let mut href = String::from_str("/");
    proof {
        reveal_strlit("/");
        assert(href@ =~= seq!['/']);
        assert(path@.skip(0) =~= path@);
    }
    // The characters before `start` are dealt with; those from `start` on
    // that were read are kept, but for a dot read last, which is pending.
    let mut start: usize = 0;
    let mut read: usize = 0;
    let mut dot = false;
    for c in it: path.chars()
        invariant
            it.seq() == path@,
            read == it.index(),
            start <= read <= path@.len(),
            len == path@.len(),
            dot ==> start < read && path@[read - 1] == '.',
            href@ + path@.subrange(start as int, read - if dot { 1int } else { 0int })
                + without_dot_slash(path@.skip(read - if dot { 1int } else { 0int })) == href_of(
                path@,
            ),
    {
        let ghost before = href@;
        if dot && c == '/' {
            proof {
                lemma_skipped(path@, read - 1);
            }
            href.append(path.substring_char(start, read - 1));
            start = read + 1;
            dot = false;
            assert(path@.subrange(start as int, start as int) =~= Seq::empty());
            assert(href@ + path@.subrange(start as int, start as int) =~= href@);
        } else {
            proof {
                if dot {
                    lemma_kept(path@, read - 1);
                    assert(path@.subrange(start as int, read - 1) + seq![path@[read - 1]]
                        =~= path@.subrange(start as int, read as int));
                }
                if c != '.' {
                    lemma_kept(path@, read as int);
                    assert(path@.subrange(start as int, read as int) + seq![path@[read as int]]
                        =~= path@.subrange(start as int, read + 1));
                }
            }
            dot = c == '.';
        }
        read += 1;
    }
    proof {
        if dot {
            lemma_kept(path@, read - 1);
            assert(path@.subrange(start as int, read - 1) + seq![path@[read - 1]]
                =~= path@.subrange(start as int, read as int));
        }
        assert(without_dot_slash(path@.skip(read as int)) =~= Seq::empty());
    }
    href.append(path.substring_char(start, len));
    href
}

} // verus!
