use vstd::prelude::*;

verus! {

/// Why the dependencies of a UDF could not be read.
#[derive(Clone, Copy, Debug, PartialEq, Eq, Structural)]
pub enum UdfError {
    /// More than one dependencies comment; only one is allowed in a UDF.
    MultipleDependencyDefinitions,
}

/// What a dependencies comment opens with; the block read out starts at its `[`.
pub open spec fn opener() -> Seq<char> {
    "/*\n[dependencies]\n"@
}

/// What closes a comment.
pub open spec fn closer() -> Seq<char> {
    "*/"@
}

/// What a UDF without a dependencies comment depends on.
pub open spec fn none_defined() -> Seq<char> {
    "[dependencies]\n# none defined\n"@
}

/// `p` occurs in `s` at `i`.
pub open spec fn occurs_at(s: Seq<char>, i: int, p: Seq<char>) -> bool {
    0 <= i && i + p.len() <= s.len() && s.subrange(i, i + p.len()) == p
}

/// The first position at or after `from` where a comment closes.
pub open spec fn close_from(s: Seq<char>, from: int) -> Option<int>
    decreases s.len() - from,
{
    if from < 0 || from + 2 > s.len() {
        None
    } else if occurs_at(s, from, closer()) {
        Some(from)
    } else {
        close_from(s, from + 1)
    }
}

/// The first complete dependencies comment at or after `from`: where it opens and where
/// its closing `*/` starts.
pub open spec fn block_from(s: Seq<char>, from: int) -> Option<(int, int)>
    decreases s.len() - from,
{
    if from < 0 || from >= s.len() {
        None
    } else if occurs_at(s, from, opener()) && close_from(s, from + opener().len()) is Some {
        Some((from, close_from(s, from + opener().len())->0))
    } else {
        block_from(s, from + 1)
    }
}

/// The dependencies a UDF definition declares: the text of its one dependencies comment,
/// from `[dependencies]` up to the closing `*/`; a stock block when there is none; an
/// error when a second comment follows the first.
pub open spec fn dependencies_of(s: Seq<char>) -> Result<Seq<char>, UdfError> {
    match block_from(s, 0) {
        None => Ok(none_defined()),
        Some((i, j)) => if block_from(s, j + 2) is Some {
            Err(UdfError::MultipleDependencyDefinitions)
        } else {
            Ok(s.subrange(i + 3, j))
        },
    }
}

proof fn lemma_close_from_bounds(s: Seq<char>, from: int)
    ensures
        close_from(s, from) matches Some(j) ==> from <= j && j + 2 <= s.len(),
    decreases s.len() - from,
{
    if !(from < 0 || from + 2 > s.len()) && !occurs_at(s, from, closer()) {
        lemma_close_from_bounds(s, from + 1);
    }
}

proof fn lemma_block_from_bounds(s: Seq<char>, from: int)
    ensures
        block_from(s, from) matches Some((i, j)) ==> from <= i && i + opener().len() <= j && j + 2 <= s.len(),
    decreases s.len() - from,
{
    if !(from < 0 || from >= s.len()) {
        if occurs_at(s, from, opener()) && close_from(s, from + opener().len()) is Some {
            lemma_close_from_bounds(s, from + opener().len());
        } else {
            lemma_block_from_bounds(s, from + 1);
        }
    }
}

/// Whether `p` occurs in `cs` at `i`.
fn occurs(cs: &Vec<char>, i: usize, p: &str) -> (r: bool)
    ensures
        r == occurs_at(cs@, i as int, p@),
{
    let m = p.unicode_len();
    let len = cs.len();
    if i > len || m > len - i {
        return false;
    }
    let mut k: usize = 0;
    while k < m
        invariant
            k <= m,
            m == p@.len(),
            len == cs@.len(),
            i + m <= len,
            forall|q: int| 0 <= q < k ==> cs@[i + q] == p@[q],
        decreases m - k,
    {
        if cs[i + k] != p.get_char(k) {
            proof {
                assert(cs@.subrange(i as int, i + m)[k as int] != p@[k as int]);
            }
            return false;
        }
        k = k + 1;
    }
    proof {
        assert(cs@.subrange(i as int, i + m) =~= p@);
    }
    true
}

/// The first position at or after `from` where a comment closes.
fn find_close(cs: &Vec<char>, from: usize) -> (r: Option<usize>)
    ensures
        match r {
            None => close_from(cs@, from as int) is None,
            Some(j) => close_from(cs@, from as int) == Some(j as int),
        },
{
    proof {
        reveal_strlit("*/");
    }
    let mut k = from;
    while k < cs.len() && cs.len() - k >= 2
        invariant
            from <= k,
            close_from(cs@, from as int) == close_from(cs@, k as int),
        decreases cs@.len() - k,
    {
        if occurs(cs, k, "*/") {
            return Some(k);
        }
        k = k + 1;
    }
    None
}

/// The first complete dependencies comment at or after `from`.
fn find_block(cs: &Vec<char>, from: usize) -> (r: Option<(usize, usize)>)
    ensures
        match r {
            None => block_from(cs@, from as int) is None,
            Some((i, j)) => block_from(cs@, from as int) == Some((i as int, j as int)),
        },
{
    proof {
        reveal_strlit("/*\n[dependencies]\n");
    }
    let mut k = from;
    while k < cs.len()
        invariant
            from <= k,
            block_from(cs@, from as int) == block_from(cs@, k as int),
        decreases cs@.len() - k,
    {
        if occurs(cs, k, "/*\n[dependencies]\n") {
            proof {
                reveal_strlit("/*\n[dependencies]\n");
            }
            match find_close(cs, k + 18) {
                Some(j) => {
                    return Some((k, j));
                },
                None => {},
            }
        }
        k = k + 1;
    }
    None
}

/// Reads the dependencies comment of a UDF definition (see `dependencies_of`).
pub fn parse_dependencies(definition: &str) -> (r: Result<String, UdfError>)
    ensures
        match dependencies_of(definition@) {
            Ok(d) => r matches Ok(t) && t@ == d,
            Err(e) => r == Err::<String, UdfError>(e),
        },
{
    let n = definition.unicode_len();
    let mut cs: Vec<char> = Vec::new();
    let mut i: usize = 0;
    while i < n
        invariant
            i <= n == definition@.len(),
            cs@ == definition@.subrange(0, i as int),
        decreases n - i,
    {
        cs.push(definition.get_char(i));
        assert(cs@ =~= definition@.subrange(0, i + 1));
        i = i + 1;
    }
    assert(cs@ =~= definition@);
    proof {
        reveal_strlit("/*\n[dependencies]\n");
        lemma_block_from_bounds(cs@, 0);
    }
    match find_block(&cs, 0) {
        None => Ok("[dependencies]\n# none defined\n".to_owned()),
        Some((start, close)) => {
            if find_block(&cs, close + 2).is_some() {
                Err(UdfError::MultipleDependencyDefinitions)
            } else {
                Ok(definition.substring_char(start + 3, close).to_owned())
            }
        },
    }
}

} // verus!
