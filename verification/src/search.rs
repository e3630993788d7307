//! Searching unpacked game files for a keyword: which files qualify, which
//! lines match, what is printed, and when the search stops.
use vstd::prelude::*;
use crate::text::{
    chars_of, contains, debug_quoted, debug_str, decimal, find_from, find_in, lowercase, push_decimal,
    push_str, string_from_chars, tail_from, to_lower, trim, trimmed,
};

verus! {

/// The lines of a text as `str::lines` yields them: split after each `\n`,
/// the `\n` (and a `\r` just before it) removed; no empty line after a final `\n`.
pub open spec fn lines_of(s: Seq<char>) -> Seq<Seq<char>>
    decreases s.len(),
{
    if s.len() == 0 {
        Seq::empty()
    } else {
        match find_from(s, seq!['\n'], 0) {
            Some(i) => if 0 <= i < s.len() {
                seq![strip_cr(s.take(i))] + lines_of(s.skip(i + 1))
            } else {
                seq![s]
            },
            None => seq![s],
        }
    }
}

/// A line without the `\r` of a `\r\n` ending.
pub open spec fn strip_cr(l: Seq<char>) -> Seq<char> {
    if l.len() > 0 && l.last() == '\r' {
        l.drop_last()
    } else {
        l
    }
}

/// The most matching lines printed before the search stops.
pub open spec fn match_limit() -> nat {
    500
}

/// The note printed when the search stops early.
pub open spec fn truncation_note() -> Seq<char> {
    "\n... truncated (>500 matches). Refine your search pattern.\n"@
}

/// The printed line for a match: priority mark, path, line number, trimmed line.
pub open spec fn match_line(prio: Seq<char>, path: Seq<char>, line_no: nat, line: Seq<char>) -> Seq<char> {
    prio + " "@ + path + ":"@ + decimal(line_no) + ": "@ + trimmed(line) + "\n"@
}

/// Searching `lines` (numbered from `line_no`) with `count` matches so far:
/// what is printed, the new count, and whether the search stopped.
pub open spec fn search_lines(lines: Seq<Seq<char>>, pat: Seq<char>, count: nat, prio: Seq<char>, path: Seq<char>, line_no: nat) -> (Seq<char>, nat, bool)
    decreases lines.len(),
{
    if lines.len() == 0 {
        (Seq::empty(), count, false)
    } else if contains(lowercase(lines[0]), pat) {
        let out = match_line(prio, path, line_no, lines[0]);
        if count + 1 > match_limit() {
            (out + truncation_note(), count + 1, true)
        } else {
            let rest = search_lines(lines.drop_first(), pat, count + 1, prio, path, line_no + 1);
            (out + rest.0, rest.1, rest.2)
        }
    } else {
        search_lines(lines.drop_first(), pat, count, prio, path, line_no + 1)
    }
}

/// Searching one file's content: files whose lowercased content does not
/// contain the pattern print nothing; otherwise each line whose lowercase
/// form contains it is printed, `*` marking files in priority directories.
pub open spec fn search_content(content: Seq<char>, pat: Seq<char>, count: nat, in_hint: bool, path: Seq<char>) -> (Seq<char>, nat, bool) {
    if !contains(lowercase(content), pat) {
        (Seq::empty(), count, false)
    } else {
        search_lines(lines_of(content), pat, count, if in_hint { "*"@ } else { " "@ }, path, 1)
    }
}

/// A running search.
pub struct SearchState {
    /// The pattern, lowercased.
    pub pattern_lower: String,
    /// Matching lines printed so far.
    pub match_count: usize,
    /// The search stopped after too many matches.
    pub stopped: bool,
}

impl SearchState {
    /// The pattern, lowercased.
    pub open spec fn pattern(&self) -> Seq<char> {
        self.pattern_lower@
    }

    /// The running count stays within the limit until the search stops.
    pub open spec fn wf(&self) -> bool {
        self.match_count <= match_limit() || self.stopped
    }

    /// A search for `pattern`, ignoring case, with nothing found yet.
    pub fn new(pattern: &str) -> (r: Self)
        ensures
            r.pattern() == lowercase(pattern@),
            r.match_count == 0,
            !r.stopped,
    {
        SearchState { pattern_lower: to_lower(pattern), match_count: 0, stopped: false }
    }

    /// Searches one file's content and returns what is printed for it.
    pub fn search_file(&mut self, path: &str, in_hint_dir: bool, content: &str) -> (r: String)
        requires
            !old(self).stopped,
            old(self).match_count <= match_limit(),
        ensures
            final(self).pattern() == old(self).pattern(),
            (r@, final(self).match_count as nat, final(self).stopped)
                == search_content(content@, old(self).pattern(), old(self).match_count as nat, in_hint_dir, path@),
            final(self).wf(),
    {
        let lower = to_lower(content);
        let lc = chars_of(lower.as_str());
        let pc = chars_of(self.pattern_lower.as_str());
        if find_in(&lc, &pc, 0).is_none() {
            return String::new();
        }
        let prio = if in_hint_dir { "*" } else { " " };
        let cs = chars_of(content);
        let nl = chars_of("\n");
        let ghost pat = self.pattern();
        let ghost count0 = self.match_count as nat;
        let ghost whole = search_lines(lines_of(content@), pat, count0, prio@, path@, 1);
        let mut out: Vec<char> = Vec::new();
        let mut rest = cs;
        let mut line_no: usize = 1;
        proof {
            reveal_strlit("\n");
        }
        assert(nl@ =~= seq!['\n']);
        assert(content@.len() == cs.len());
        while rest.len() > 0
            invariant_except_break
                nl@ == seq!['\n'],
                pc@ == pat,
                pat == self.pattern(),
                !self.stopped,
                self.match_count <= match_limit(),
                line_no >= 1,
                line_no <= 1 + content@.len() - rest@.len(),
                rest@.len() <= content@.len(),
                content@.len() <= usize::MAX,
                whole == ({
                    let tail = search_lines(lines_of(rest@), pat, self.match_count as nat, prio@, path@, line_no as nat);
                    (out@ + tail.0, tail.1, tail.2)
                }),
            ensures
                pat == self.pattern(),
                self.wf(),
                whole == (out@, self.match_count as nat, self.stopped),
            decreases rest.len(),
        {
            let ghost r0 = rest@;
            let (line, next) = match find_in(&rest, &nl, 0) {
                Some(i) => {
                    proof {
                        crate::text::lemma_find_from_match(rest@, nl@, 0);
                    }
                    let mut l: Vec<char> = Vec::new();
                    let mut k: usize = 0;
                    while k < i
                        invariant
                            k <= i,
                            i < rest.len(),
                            l@ == rest@.take(k as int),
                        decreases i - k,
                    {
                        l.push(rest[k]);
                        assert(l@ =~= rest@.take(k + 1));
                        k = k + 1;
                    }
                    if l.len() > 0 && l[l.len() - 1] == '\r' {
                        l.pop();
                    }
                    let tail = tail_from(&rest, i + 1);
                    (l, tail)
                },
                None => {
                    let l = rest;
                    (l, Vec::new())
                },
            };
            assert(lines_of(r0) == seq![line@] + lines_of(next@));
            let ghost lines = seq![line@] + lines_of(next@);
            assert(lines[0] == line@);
            assert(lines.drop_first() =~= lines_of(next@));
            let ghost line_v = line@;
            let line_text = string_from_chars(line);
            let lowered = to_lower(line_text.as_str());
            let ll = chars_of(lowered.as_str());
            let ghost out_before = out@;
            let ghost count_before = self.match_count as nat;
            let ghost no_before = line_no as nat;
            if find_in(&ll, &pc, 0).is_some() {
                broadcast use crate::text::lemma_add_assoc;
                push_str(&mut out, prio);
                push_str(&mut out, " ");
                push_str(&mut out, path);
                push_str(&mut out, ":");
                push_decimal(&mut out, line_no as u64);
                push_str(&mut out, ": ");
                let t = trim(line_text.as_str());
                push_str(&mut out, t.as_str());
                push_str(&mut out, "\n");
                assert(out@ == out_before + match_line(prio@, path@, no_before, line_v));
                self.match_count = self.match_count + 1;
                if self.match_count > 500 {
                    push_str(&mut out, "\n... truncated (>500 matches). Refine your search pattern.\n");
                    self.stopped = true;
                    assert(whole == (out@, self.match_count as nat, self.stopped));
                    break;
                }
                let ghost tail = search_lines(lines_of(next@), pat, self.match_count as nat, prio@, path@, no_before + 1);
                assert(whole == (out_before + (match_line(prio@, path@, no_before, line_v) + tail.0), tail.1, tail.2));
            } else {
                let ghost tail = search_lines(lines_of(next@), pat, self.match_count as nat, prio@, path@, no_before + 1);
                assert(whole == (out_before + tail.0, tail.1, tail.2));
            }
            assert(next@.len() < r0.len());
            if next.len() > 0 {
                line_no = line_no + 1;
            }
            rest = next;
        }
        string_from_chars(out)
    }
}

/// A file qualifies when its extension, lowercased, is one of `extensions`.
pub fn extension_matches(ext: Option<&str>, extensions: &Vec<String>) -> (r: bool)
    ensures
        r == match ext {
            Some(e) => exists|i: int| 0 <= i < extensions@.len() && (#[trigger] extensions@[i])@ == lowercase(e@),
            None => false,
        },
{
    let e = match ext {
        Some(e) => e,
        None => {
            return false;
        },
    };
    let lower = to_lower(e);
    let mut i: usize = 0;
    while i < extensions.len()
        invariant
            i <= extensions.len(),
            lower@ == lowercase(e@),
            ext == Some(e),
            forall|j: int| 0 <= j < i ==> (#[trigger] extensions@[j])@ != lowercase(e@),
        decreases extensions.len() - i,
    {
        if crate::text::str_eq(lower.as_str(), extensions[i].as_str()) {
            assert(extensions@[i as int]@ == lowercase(e@));
            return true;
        }
        i = i + 1;
    }
    false
}

/// A file lies in a priority directory when its path, lowercased, contains
/// one of the hints, lowercased.
pub fn in_hint_dir(path: &str, hints: &Vec<String>) -> (r: bool)
    ensures
        r == exists|i: int| 0 <= i < hints@.len() && contains(lowercase(path@), lowercase(#[trigger] hints@[i]@)),
{
    let p = to_lower(path);
    let pc = chars_of(p.as_str());
    let mut i: usize = 0;
    while i < hints.len()
        invariant
            i <= hints.len(),
            pc@ == lowercase(path@),
            forall|j: int| 0 <= j < i ==> !contains(lowercase(path@), lowercase(#[trigger] hints@[j]@)),
        decreases hints.len() - i,
    {
        let h = to_lower(hints[i].as_str());
        let hc = chars_of(h.as_str());
        if find_in(&pc, &hc, 0).is_some() {
            return true;
        }
        i = i + 1;
    }
    false
}

/// The line announcing a search.
pub fn search_heading(pattern: &str, dir: &str) -> (r: String)
    ensures
        r@ == "Searching for \""@ + pattern@ + "\" in "@ + dir@ + " ...\n\n"@,
{
    broadcast use crate::text::lemma_add_assoc;
    let mut out = chars_of("Searching for \"");
    push_str(&mut out, pattern);
    push_str(&mut out, "\" in ");
    push_str(&mut out, dir);
    push_str(&mut out, " ...\n\n");
    string_from_chars(out)
}

/// The items of a list as `Debug` writes a list of strings, without brackets.
pub open spec fn debug_items(v: Seq<String>) -> Seq<char>
    decreases v.len(),
{
    if v.len() == 0 {
        Seq::empty()
    } else if v.len() == 1 {
        debug_quoted(v[0]@)
    } else {
        debug_items(v.drop_last()) + ", "@ + debug_quoted(v.last()@)
    }
}

/// A list of strings as `Debug` writes it.
pub open spec fn debug_list(v: Seq<String>) -> Seq<char> {
    "["@ + debug_items(v) + "]"@
}

fn push_debug_list(out: &mut Vec<char>, v: &Vec<String>)
    ensures
        final(out)@ == old(out)@ + debug_list(v@),
{
    broadcast use crate::text::lemma_add_assoc;
    push_str(out, "[");
    let ghost start = out@;
    let mut i: usize = 0;
    assert(out@ + Seq::<char>::empty() =~= out@);
    while i < v.len()
        invariant
            i <= v.len(),
            out@ == start + debug_items(v@.subrange(0, i as int)),
        decreases v.len() - i,
    {
        assert(v@.subrange(0, i + 1).drop_last() =~= v@.subrange(0, i as int));
        if i > 0 {
            push_str(out, ", ");
        }
        let q = debug_str(v[i].as_str());
        push_str(out, q.as_str());
        if i == 0 {
            assert(debug_items(v@.subrange(0, 1)) == debug_quoted(v@[0]@));
        }
        i = i + 1;
    }
    assert(v@.subrange(0, v@.len() as int) =~= v@);
    push_str(out, "]");
}

/// The closing lines of a search: a note when nothing matched (with the
/// extensions and hints searched), else the number of matching lines and what
/// the `*` mark means.
pub open spec fn search_summary_text(count: nat, extensions: Seq<String>, hints: Seq<String>) -> Seq<char> {
    if count == 0 {
        "No matches found.\n"@ + "Searched extensions: "@ + debug_list(extensions) + "\n"@
            + "Hint subdirectories: "@ + debug_list(hints) + "\n"@
    } else {
        "\n"@ + decimal(count) + " matching lines found.\n"@
            + "Lines prefixed with * are in priority directories ("@ + debug_list(hints) + ").\n"@
    }
}

/// The closing lines of a search that ran to its end.
pub fn search_summary(count: usize, extensions: &Vec<String>, hints: &Vec<String>) -> (r: String)
    ensures
        r@ == search_summary_text(count as nat, extensions@, hints@),
{
    broadcast use crate::text::lemma_add_assoc;
    let mut out: Vec<char> = Vec::new();
    if count == 0 {
        push_str(&mut out, "No matches found.\n");
        push_str(&mut out, "Searched extensions: ");
        push_debug_list(&mut out, extensions);
        push_str(&mut out, "\n");
        push_str(&mut out, "Hint subdirectories: ");
        push_debug_list(&mut out, hints);
        push_str(&mut out, "\n");
    } else {
        push_str(&mut out, "\n");
        push_decimal(&mut out, count as u64);
        push_str(&mut out, " matching lines found.\n");
        push_str(&mut out, "Lines prefixed with * are in priority directories (");
        push_debug_list(&mut out, hints);
        push_str(&mut out, ").\n");
    }
    assert(out@ =~= search_summary_text(count as nat, extensions@, hints@));
    string_from_chars(out)
}

/// A search prints at most one line past the limit: the count never exceeds
/// the limit by more than one, and the search stops exactly when it exceeds it.
pub proof fn law_search_stops_past_limit(lines: Seq<Seq<char>>, pat: Seq<char>, count: nat, prio: Seq<char>, path: Seq<char>, line_no: nat)
    requires
        count <= match_limit(),
    ensures
        search_lines(lines, pat, count, prio, path, line_no).1 <= match_limit() + 1,
        search_lines(lines, pat, count, prio, path, line_no).2 <==> search_lines(lines, pat, count, prio, path, line_no).1 > match_limit(),
        count <= search_lines(lines, pat, count, prio, path, line_no).1,
    decreases lines.len(),
{
    if lines.len() > 0 {
        if contains(lowercase(lines[0]), pat) {
            if count + 1 <= match_limit() {
                law_search_stops_past_limit(lines.drop_first(), pat, count + 1, prio, path, line_no + 1);
            }
        } else {
            law_search_stops_past_limit(lines.drop_first(), pat, count, prio, path, line_no + 1);
        }
    }
}

} // verus!
