//! Comment toggling for source lines.
//!
//! A line counts as commented when its first non-blank character starts
//! the comment marker of the buffer's filetype.  Toggling one line
//! inserts the marker (and one space) in front of the first non-space
//! character, or removes the marker (and one following space, if any)
//! again.  Toggling a block comments every non-empty line at the
//! shallowest indentation found in the block when at least one non-empty
//! line is uncommented, and uncomments every line otherwise.

use vstd::prelude::*;
use vstd::string::StrSliceExecFns;
use vstd::string::StringExecFns;

use crate::strutil::{line_views, str_eq};

verus! {

/// Number of leading characters of `s` satisfying `pred`.
pub open spec fn count_prefix(s: Seq<char>, pred: spec_fn(char) -> bool) -> int
    decreases s.len(),
{
    if s.len() == 0 || !pred(s[0]) {
        0
    } else {
        1 + count_prefix(s.drop_first(), pred)
    }
}

/// A space, the only character the insert position looks past.
pub open spec fn space_pred() -> spec_fn(char) -> bool {
    |c: char| c == ' '
}

/// Horizontal whitespace, which the commented-or-not test looks past.
pub open spec fn blank_pred() -> spec_fn(char) -> bool {
    |c: char| c == ' ' || c == '\t'
}

/// Index of the first non-space character (the length if none).
pub open spec fn leading_spaces(s: Seq<char>) -> int {
    count_prefix(s, space_pred())
}

/// Index of the first non-blank character (the length if none).
pub open spec fn leading_blanks(s: Seq<char>) -> int {
    count_prefix(s, blank_pred())
}

/// `s` begins with `p`.
pub open spec fn spec_starts_with(s: Seq<char>, p: Seq<char>) -> bool {
    s.len() >= p.len() && s.subrange(0, p.len() as int) == p
}

/// The line's first non-blank characters are the comment marker.
pub open spec fn is_commented(cs: Seq<char>, s: Seq<char>) -> bool {
    spec_starts_with(s.skip(leading_blanks(s)), cs)
}

/// The line with `cs` and one space inserted at position `idx`.
pub open spec fn comment_at(cs: Seq<char>, s: Seq<char>, idx: int) -> Seq<char> {
    s.subrange(0, idx) + cs + seq![' '] + s.skip(idx)
}

/// The line with its comment marker removed: the marker, and one space
/// directly after it if there is one, disappear from the first non-blank
/// position.  An uncommented line is returned unchanged.
pub open spec fn uncomment_spec(cs: Seq<char>, s: Seq<char>) -> Seq<char> {
    if is_commented(cs, s) {
        let k = leading_blanks(s);
        let n: int = if k + cs.len() < s.len() && s[k + cs.len()] == ' ' {
            cs.len() as int + 1
        } else {
            cs.len() as int
        };
        s.subrange(0, k) + s.skip(k + n)
    } else {
        s
    }
}

/// One line after a toggle: uncommented if it was commented, commented
/// at its first non-space character otherwise.
pub open spec fn toggle_spec(cs: Seq<char>, s: Seq<char>) -> Seq<char> {
    if is_commented(cs, s) {
        uncomment_spec(cs, s)
    } else {
        comment_at(cs, s, leading_spaces(s))
    }
}

/// The prefix count is the first index where `pred` fails.
proof fn lemma_count_prefix(s: Seq<char>, pred: spec_fn(char) -> bool)
    ensures
        0 <= count_prefix(s, pred) <= s.len(),
        forall|j: int| 0 <= j < count_prefix(s, pred) ==> pred(#[trigger] s[j]),
        count_prefix(s, pred) < s.len() ==> !pred(s[count_prefix(s, pred)]),
    decreases s.len(),
{
    if s.len() > 0 && pred(s[0]) {
        lemma_count_prefix(s.drop_first(), pred);
        assert(forall|j: int|
            0 <= j < s.len() - 1 ==> #[trigger] s.drop_first()[j] == s[j + 1]);
        assert forall|j: int| 0 <= j < count_prefix(s, pred) implies pred(#[trigger] s[j]) by {
            if j > 0 {
                assert(s.drop_first()[j - 1] == s[j]);
                assert(pred(s.drop_first()[j - 1]));
            }
        }
    }
}

/// Exec counterpart of `leading_spaces`.
pub fn leading_spaces_exec(s: &str) -> (r: usize)
    ensures
        r == leading_spaces(s@),
{
    let len = s.unicode_len();
    let mut i: usize = 0;
    while i < len && s.get_char(i) == ' '
        invariant
            len == s@.len(),
            i <= len,
            forall|j: int| 0 <= j < i ==> #[trigger] s@[j] == ' ',
        decreases len - i,
    {
        i += 1;
    }
    proof {
        lemma_count_prefix(s@, space_pred());
        let k = count_prefix(s@, space_pred());
        if i < k {
            assert(space_pred()(s@[i as int]));
            assert(false);
        }
        if k < i {
            assert(s@[k] == ' ');
            assert(false);
        }
    }
    i
}

/// Exec counterpart of `leading_blanks`.
pub fn leading_blanks_exec(s: &str) -> (r: usize)
    ensures
        r == leading_blanks(s@),
{
    let len = s.unicode_len();
    let mut i: usize = 0;
    while i < len && (s.get_char(i) == ' ' || s.get_char(i) == '\t')
        invariant
            len == s@.len(),
            i <= len,
            forall|j: int| 0 <= j < i ==> blank_pred()(#[trigger] s@[j]),
        decreases len - i,
    {
        i += 1;
    }
    proof {
        lemma_count_prefix(s@, blank_pred());
        let k = count_prefix(s@, blank_pred());
        if i < k {
            assert(blank_pred()(s@[i as int]));
            assert(false);
        }
        if k < i {
            assert(blank_pred()(s@[k]));
            assert(false);
        }
    }
    i
}

/// Whether `p` starts at position `k` of `s`.
pub fn starts_with_at(s: &str, k: usize, p: &str) -> (r: bool)
    requires
        k <= s@.len(),
    ensures
        r == spec_starts_with(s@.skip(k as int), p@),
{
    let len = s.unicode_len();
    let plen = p.unicode_len();
    if len - k < plen {
        return false;
    }
    let mut i: usize = 0;
    while i < plen
        invariant
            len == s@.len(),
            plen == p@.len(),
            k + plen <= len,
            i <= plen,
            forall|j: int| 0 <= j < i ==> s@[k + j] == p@[j],
        decreases plen - i,
    {
        if s.get_char(k + i) != p.get_char(i) {
            proof {
                let tail = s@.skip(k as int);
                assert(tail.subrange(0, p@.len() as int)[i as int] == s@[k + i]);
            }
            return false;
        }
        i += 1;
    }
    proof {
        assert(s@.skip(k as int).subrange(0, p@.len() as int) =~= p@);
    }
    true
}

/// Exec counterpart of `is_commented`.
pub fn is_commented_exec(comment_string: &str, s: &str) -> (r: bool)
    ensures
        r == is_commented(comment_string@, s@),
{
    let k = leading_blanks_exec(s);
    proof {
        lemma_count_prefix(s@, blank_pred());
    }
    starts_with_at(s, k, comment_string)
}

/// Inserts the comment marker and one space at position `index`.
pub fn comment_line(comment_string: &str, content: String, index: usize) -> (r: String)
    requires
        index <= content@.len(),
    ensures
        r@ == comment_at(comment_string@, content@, index as int),
{
    let len = content.as_str().unicode_len();
    let prefix = content.as_str().substring_char(0, index);
    let suffix = content.as_str().substring_char(index, len);
    let out = String::from_str(prefix).concat(comment_string).concat(" ").concat(suffix);
    proof {
        reveal_strlit(" ");
        assert(" "@ =~= seq![' ']);
        assert(out@ =~= comment_at(comment_string@, content@, index as int));
    }
    out
}

/// Removes the comment marker (and one space directly after it, if any)
/// from the first non-blank position; an uncommented line comes back
/// unchanged.
pub fn uncomment_line(comment_string: &str, content: String) -> (r: String)
    ensures
        r@ == uncomment_spec(comment_string@, content@),
{
    let len = content.as_str().unicode_len();
    let cslen = comment_string.unicode_len();
    let k = leading_blanks_exec(content.as_str());
    proof {
        lemma_count_prefix(content@, blank_pred());
    }
    if starts_with_at(content.as_str(), k, comment_string) {
        proof {
            assert(content@.skip(k as int).len() >= comment_string@.len());
        }
        let mut n = cslen;
        if k + cslen < len && content.as_str().get_char(k + cslen) == ' ' {
            n = cslen + 1;
        }
        let prefix = content.as_str().substring_char(0, k);
        let suffix = content.as_str().substring_char(k + n, len);
        let out = String::from_str(prefix).concat(suffix);
        proof {
            assert(out@ =~= uncomment_spec(comment_string@, content@));
        }
        out
    } else {
        content
    }
}

/// Toggles one line.
pub fn comment_line_toggle(comment_string: &str, content: String) -> (r: String)
    ensures
        r@ == toggle_spec(comment_string@, content@),
{
    if is_commented_exec(comment_string, content.as_str()) {
        uncomment_line(comment_string, content)
    } else {
        proof {
            lemma_count_prefix(content@, space_pred());
        }
        let index = leading_spaces_exec(content.as_str());
        comment_line(comment_string, content, index)
    }
}

/// Some non-empty line of the block is not commented yet.
pub open spec fn any_uncommented(cs: Seq<char>, lines: Seq<Seq<char>>) -> bool {
    exists|i: int| 0 <= i < lines.len() && lines[i].len() != 0 && !is_commented(cs, lines[i])
}

/// The shallowest first-non-space position over the block (the largest
/// representable index when the block is empty).
pub open spec fn min_indent(lines: Seq<Seq<char>>) -> int
    decreases lines.len(),
{
    if lines.len() == 0 {
        usize::MAX as int
    } else {
        let m = min_indent(lines.drop_last());
        let l = leading_spaces(lines.last());
        if l < m {
            l
        } else {
            m
        }
    }
}

/// The block indent is never negative.
proof fn lemma_min_indent_nonneg(lines: Seq<Seq<char>>)
    ensures
        min_indent(lines) >= 0,
    decreases lines.len(),
{
    if lines.len() > 0 {
        lemma_min_indent_nonneg(lines.drop_last());
        lemma_count_prefix(lines.last(), space_pred());
    }
}

/// The block indent is no deeper than any line's own indent.
proof fn lemma_min_indent_le(lines: Seq<Seq<char>>, i: int)
    requires
        0 <= i < lines.len(),
    ensures
        min_indent(lines) <= leading_spaces(lines[i]),
        min_indent(lines) >= 0,
    decreases lines.len(),
{
    lemma_min_indent_nonneg(lines);
    lemma_count_prefix(lines.last(), space_pred());
    if lines.len() == 1 {
        assert(lines[0] == lines.last());
    } else {
        if i < lines.len() - 1 {
            lemma_min_indent_le(lines.drop_last(), i);
            assert(lines.drop_last()[i] == lines[i]);
        }
    }
}

/// One line of the block after the toggle.
pub open spec fn multiline_line(cs: Seq<char>, lines: Seq<Seq<char>>, i: int) -> Seq<char> {
    if any_uncommented(cs, lines) {
        if lines[i].len() == 0 {
            lines[i]
        } else {
            comment_at(cs, lines[i], min_indent(lines))
        }
    } else {
        uncomment_spec(cs, lines[i])
    }
}

/// Toggles a block of lines: when at least one non-empty line is not
/// commented yet, every non-empty line is commented at the block's
/// shallowest first-non-space position and empty lines pass through;
/// otherwise every line is uncommented.
pub fn comment_multiline_toggle(comment_string: &str, lines: &Vec<String>) -> (r: Vec<String>)
    ensures
        r@.len() == lines@.len(),
        forall|i: int|
            0 <= i < lines@.len() ==> line_views(r@)[i] == #[trigger] multiline_line(
                comment_string@,
                line_views(lines@),
                i,
            ),
{
    let ghost lv = line_views(lines@);
    let mut flag = false;
    let mut min_idx: usize = usize::MAX;
    let mut i: usize = 0;
    proof {
        assert(!any_uncommented(comment_string@, lv.take(0)));
    }
    while i < lines.len()
        invariant
            i <= lines@.len(),
            lv == line_views(lines@),
            flag == any_uncommented(comment_string@, lv.take(i as int)),
            min_idx == min_indent(lv.take(i as int)),
        decreases lines@.len() - i,
    {
        proof {
            assert(lv.take(i + 1).drop_last() =~= lv.take(i as int));
            assert(lv.take(i + 1).last() == lv[i as int]);
        }
        let line = &lines[i];
        if !line.as_str().is_empty() && !is_commented_exec(comment_string, line.as_str()) {
            flag = true;
        }
        proof {
            if flag && !any_uncommented(comment_string@, lv.take(i + 1)) {
                if any_uncommented(comment_string@, lv.take(i as int)) {
                    let j = choose|j: int|
                        0 <= j < i && lv.take(i as int)[j].len() != 0 && !is_commented(
                            comment_string@,
                            lv.take(i as int)[j],
                        );
                    assert(lv.take(i + 1)[j] == lv.take(i as int)[j]);
                    assert(false);
                } else {
                    assert(lv.take(i + 1)[i as int] == lv[i as int]);
                    assert(false);
                }
            }
            if !flag && any_uncommented(comment_string@, lv.take(i + 1)) {
                let j = choose|j: int|
                    #![trigger lv.take(i + 1)[j]]
                    0 <= j < i + 1 && lv.take(i + 1)[j].len() != 0 && !is_commented(
                        comment_string@,
                        lv.take(i + 1)[j],
                    );
                if j < i {
                    assert(lv.take(i as int)[j] == lv.take(i + 1)[j]);
                    assert(any_uncommented(comment_string@, lv.take(i as int)));
                }
                assert(false);
            }
        }
        let li = leading_spaces_exec(line.as_str());
        if li < min_idx {
            min_idx = li;
        }
        i += 1;
    }
    proof {
        assert(lv.take(lv.len() as int) =~= lv);
    }
    let mut out: Vec<String> = Vec::new();
    let mut i: usize = 0;
    while i < lines.len()
        invariant
            i <= lines@.len(),
            lv == line_views(lines@),
            flag == any_uncommented(comment_string@, lv),
            min_idx == min_indent(lv),
            out@.len() == i,
            forall|j: int|
                0 <= j < i ==> line_views(out@)[j] == #[trigger] multiline_line(
                    comment_string@,
                    lv,
                    j,
                ),
        decreases lines@.len() - i,
    {
        let ghost prev = out@;
        if flag {
            if lines[i].as_str().is_empty() {
                out.push(lines[i].clone());
            } else {
                proof {
                    lemma_min_indent_le(lv, i as int);
                    lemma_count_prefix(lv[i as int], space_pred());
                }
                out.push(comment_line(comment_string, lines[i].clone(), min_idx));
            }
        } else {
            out.push(uncomment_line(comment_string, lines[i].clone()));
        }
        proof {
            assert(forall|j: int|
                0 <= j < prev.len() ==> line_views(out@)[j] == line_views(prev)[j]);
        }
        i += 1;
    }
    out
}

/// The comment marker of a filetype, when one is configured.
pub open spec fn comment_string_spec(ft: Seq<char>) -> Option<Seq<char>> {
    if ft == "c"@ || ft == "cpp"@ || ft == "rust"@ {
        Some("//"@)
    } else if ft == "sh"@ {
        Some("#"@)
    } else if ft == "lua"@ || ft == "sql"@ {
        Some("--"@)
    } else {
        None
    }
}

/// Read-only lookup of the comment marker configured for `filetype`.
pub fn comment_string(filetype: String) -> (r: Option<String>)
    ensures
        match r {
            Some(s) => comment_string_spec(filetype@) == Some(s@),
            None => comment_string_spec(filetype@) is None,
        },
{
    let ft = filetype.as_str();
    if str_eq(ft, "c") || str_eq(ft, "cpp") || str_eq(ft, "rust") {
        Some(String::from_str("//"))
    } else if str_eq(ft, "sh") {
        Some(String::from_str("#"))
    } else if str_eq(ft, "lua") || str_eq(ft, "sql") {
        Some(String::from_str("--"))
    } else {
        None
    }
}

} // verus!
