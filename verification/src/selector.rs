//! Branch selectors: the expression by which a step says on which branches
//! it runs.
//!
//! A selector is either absent (`All`, every branch) or a pattern. In a
//! pattern the character `*` stands for any run of characters, the empty run
//! included; every other character stands for itself. A pattern without `*`
//! is therefore an exact match. There is no negation and no list of
//! patterns; a further kind of selector would be a further variant of
//! [`BranchSelector`].

use vstd::prelude::*;
use crate::text::chars_of;

verus! {

/// The branches on which a step runs.
#[derive(Debug, PartialEq, Eq)]
pub enum BranchSelector {
    /// No selector was given: the step runs on every branch.
    All,
    /// The step runs on the branches whose name the pattern matches.
    Pattern(String),
}

/// The mathematical value of a [`BranchSelector`].
pub enum SelectorView {
    All,
    Pattern(Seq<char>),
}

impl View for BranchSelector {
    type V = SelectorView;

    open spec fn view(&self) -> SelectorView {
        match self {
            BranchSelector::All => SelectorView::All,
            BranchSelector::Pattern(p) => SelectorView::Pattern(p@),
        }
    }
}

/// Whether `pattern` matches the whole of `text`.
pub open spec fn glob_matches(pattern: Seq<char>, text: Seq<char>) -> bool
    decreases pattern.len(), text.len(),
{
    if pattern.len() == 0 {
        text.len() == 0
    } else if pattern[0] == '*' {
        glob_matches(pattern.drop_first(), text) || (text.len() > 0 && glob_matches(
            pattern,
            text.drop_first(),
        ))
    } else {
        text.len() > 0 && text[0] == pattern[0] && glob_matches(
            pattern.drop_first(),
            text.drop_first(),
        )
    }
}

/// Whether a pattern holds no wildcard.
pub open spec fn is_literal(pattern: Seq<char>) -> bool {
    forall|i: int| 0 <= i < pattern.len() ==> pattern[i] != '*'
}

/// Whether `selector` selects the branch named `branch`.
pub open spec fn selects(selector: SelectorView, branch: Seq<char>) -> bool {
    match selector {
        SelectorView::All => true,
        SelectorView::Pattern(p) => glob_matches(p, branch),
    }
}

/// A pattern without a wildcard matches its own text and nothing else.
pub proof fn lemma_literal_matches_only_itself(pattern: Seq<char>, text: Seq<char>)
    requires
        is_literal(pattern),
    ensures
        glob_matches(pattern, text) <==> text == pattern,
    decreases pattern.len(),
{
    if pattern.len() == 0 {
        assert(text.len() == 0 <==> text =~= pattern);
    } else {
        if text.len() > 0 {
            let p = pattern.drop_first();
            let t = text.drop_first();
            assert(is_literal(p)) by {
                assert forall|i: int| 0 <= i < p.len() implies p[i] != '*' by {
                    assert(p[i] == pattern[i + 1]);
                }
            }
            lemma_literal_matches_only_itself(p, t);
            if text[0] == pattern[0] && t == p {
                assert(text =~= seq![text[0]] + t);
                assert(pattern =~= seq![pattern[0]] + p);
            }
        }
    }
}

/// A selector with a literal pattern selects exactly the branch of that name.
pub proof fn lemma_exact_selector(pattern: Seq<char>, branch: Seq<char>)
    requires
        is_literal(pattern),
    ensures
        selects(SelectorView::Pattern(pattern), branch) <==> branch == pattern,
{
    lemma_literal_matches_only_itself(pattern, branch);
}

/// The absent selector selects every branch, the one with the empty name
/// included.
pub proof fn lemma_absent_selector_selects_all(branch: Seq<char>)
    ensures
        selects(SelectorView::All, branch),
        selects(SelectorView::All, Seq::<char>::empty()),
{
}

/// The pattern `*` matches every text.
pub proof fn lemma_lone_star_matches_all(text: Seq<char>)
    ensures
        glob_matches(seq!['*'], text),
    decreases text.len(),
{
    let p = seq!['*'];
    if text.len() == 0 {
        assert(glob_matches(p.drop_first(), text));
    } else {
        lemma_lone_star_matches_all(text.drop_first());
    }
}

/// A literal text followed by `*` matches exactly the texts that begin
/// with the literal text.
pub proof fn lemma_prefix_pattern(prefix: Seq<char>, text: Seq<char>)
    requires
        is_literal(prefix),
    ensures
        glob_matches(prefix.push('*'), text) <==> (prefix.len() <= text.len() && text.take(
            prefix.len() as int,
        ) == prefix),
    decreases prefix.len(),
{
    let pattern = prefix.push('*');
    if prefix.len() == 0 {
        assert(pattern =~= seq!['*']);
        lemma_lone_star_matches_all(text);
        assert(text.take(0) =~= prefix);
    } else {
        assert(pattern.drop_first() =~= prefix.drop_first().push('*'));
        if text.len() > 0 {
            let p = prefix.drop_first();
            let t = text.drop_first();
            assert(is_literal(p)) by {
                assert forall|i: int| 0 <= i < p.len() implies p[i] != '*' by {
                    assert(p[i] == prefix[i + 1]);
                }
            }
            lemma_prefix_pattern(p, t);
            if prefix.len() <= text.len() {
                let n = prefix.len() as int;
                if text.take(n) == prefix {
                    assert(t.take(n - 1) =~= text.take(n).drop_first());
                }
                if text[0] == prefix[0] && t.take(n - 1) == p {
                    assert forall|k: int| 0 <= k < n implies text.take(n)[k] == prefix[k] by {
                        if k > 0 {
                            assert(text.take(n)[k] == t.take(n - 1)[k - 1]);
                        }
                    }
                    assert(text.take(n) =~= prefix);
                }
            }
        }
    }
}

/// One unfolding of `glob_matches` on a suffix of the pattern and a suffix of
/// the text.
proof fn lemma_glob_cell(p: Seq<char>, t: Seq<char>, i: int, j: int)
    requires
        0 <= i < p.len(),
        0 <= j <= t.len(),
    ensures
        glob_matches(p.skip(i), t.skip(j)) == if p[i] == '*' {
            glob_matches(p.skip(i + 1), t.skip(j)) || (j < t.len() && glob_matches(
                p.skip(i),
                t.skip(j + 1),
            ))
        } else {
            j < t.len() && t[j] == p[i] && glob_matches(p.skip(i + 1), t.skip(j + 1))
        },
{
    assert(p.skip(i).drop_first() =~= p.skip(i + 1));
    if j < t.len() {
        assert(t.skip(j).drop_first() =~= t.skip(j + 1));
    }
}

/// Whether `pattern` matches the whole of `text`, in time proportional to the
/// product of their lengths.
pub fn glob_match(pattern: &Vec<char>, text: &Vec<char>) -> (b: bool)
    ensures
        b == glob_matches(pattern@, text@),
{
    let m: usize = pattern.len();
    let n: usize = text.len();
    let ghost p = pattern@;
    let ghost t = text@;
    // `row[j]` tells whether the pattern from `i` on matches the text from `j`
    // on; `tail` is the same for the empty rest of the text.
    let mut row: Vec<bool> = Vec::new();
    let mut j: usize = 0;
    while j < n
        invariant
            j <= n,
            n == t.len(),
            m == p.len(),
            row.len() == j,
            forall|k: int| 0 <= k < j ==> row[k] == glob_matches(p.skip(m as int), #[trigger] t.skip(k)),
        decreases n - j,
    {
        row.push(false);
        j = j + 1;
    }
    let mut tail: bool = true;
    let mut i: usize = m;
    while i > 0
        invariant
            i <= m,
            m == p.len(),
            n == t.len(),
            p == pattern@,
            t == text@,
            row.len() == n,
            tail == glob_matches(p.skip(i as int), t.skip(n as int)),
            forall|k: int| 0 <= k < n ==> row[k] == glob_matches(p.skip(i as int), #[trigger] t.skip(k)),
        decreases i,
    {
        i = i - 1;
        let c: char = pattern[i];
        let star: bool = c == '*';
        proof {
            lemma_glob_cell(p, t, i as int, n as int);
        }
        let new_tail: bool = star && tail;
        let mut right: bool = new_tail;
        let mut below_right: bool = tail;
        let mut j: usize = n;
        while j > 0
            invariant
                j <= n,
                i < m,
                m == p.len(),
                n == t.len(),
                p == pattern@,
                t == text@,
                c == p[i as int],
                star == (c == '*'),
                row.len() == n,
                right == glob_matches(p.skip(i as int), t.skip(j as int)),
                below_right == glob_matches(p.skip(i + 1), t.skip(j as int)),
                forall|k: int| 0 <= k < j ==> row[k] == glob_matches(p.skip(i + 1), #[trigger] t.skip(k)),
                forall|k: int| j <= k < n ==> row[k] == glob_matches(p.skip(i as int), #[trigger] t.skip(k)),
            decreases j,
        {
            j = j - 1;
            let below: bool = row[j];
            proof {
                lemma_glob_cell(p, t, i as int, j as int);
            }
            let cell: bool = if star {
                below || right
            } else {
                text[j] == c && below_right
            };
            row.set(j, cell);
            right = cell;
            below_right = below;
        }
        tail = new_tail;
    }
    assert(p.skip(0) =~= p);
    assert(t.skip(0) =~= t);
    if n == 0 {
        tail
    } else {
        row[0]
    }
}

impl BranchSelector {
    /// Whether the selector selects the branch named `branch`.
    pub fn matches(&self, branch: &str) -> (b: bool)
        ensures
            b == selects(self@, branch@),
    {
        match self {
            BranchSelector::All => true,
            BranchSelector::Pattern(p) => {
                let pattern = chars_of(p.as_str());
                let text = chars_of(branch);
                glob_match(&pattern, &text)
            },
        }
    }

    /// Whether the selector selects the branch whose name has the characters
    /// `branch`.
    pub fn matches_chars(&self, branch: &Vec<char>) -> (b: bool)
        ensures
            b == selects(self@, branch@),
    {
        match self {
            BranchSelector::All => true,
            BranchSelector::Pattern(p) => {
                let pattern = chars_of(p.as_str());
                glob_match(&pattern, branch)
            },
        }
    }
}

impl Clone for BranchSelector {
    fn clone(&self) -> (out: Self)
        ensures
            out@ == self@,
    {
        match self {
            BranchSelector::All => BranchSelector::All,
            BranchSelector::Pattern(p) => BranchSelector::Pattern(p.clone()),
        }
    }
}

} // verus!
