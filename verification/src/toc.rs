//! The Markdown table of contents: heading slugs and the list that can be
//! set in front of a document.

use crate::text::{
    char_is_alphanumeric, is_alnum_char, lower_of, lowercase, push_char, spec_trim, trim_str,
};
use vstd::prelude::*;
use vstd::string::*;

verus! {

/// Options of the table of contents: an optional title with its heading
/// level, the heading depths to keep, and the indent width per level.
#[derive(Clone, Debug, PartialEq)]
pub struct TocOptions {
    pub toc_title: Option<String>,
    pub toc_title_level: Option<usize>,
    pub min_depth: Option<usize>,
    pub max_depth: Option<usize>,
    pub spaces_per_indent: Option<usize>,
}

/// Ghost mirror of [`TocOptions`].
pub ghost struct TocOptionsV {
    pub toc_title: Option<Seq<char>>,
    pub toc_title_level: Option<usize>,
    pub min_depth: Option<usize>,
    pub max_depth: Option<usize>,
    pub spaces_per_indent: Option<usize>,
}

impl DeepView for TocOptions {
    type V = TocOptionsV;

    open spec fn deep_view(&self) -> TocOptionsV {
        TocOptionsV {
            toc_title: self.toc_title.deep_view(),
            toc_title_level: self.toc_title_level,
            min_depth: self.min_depth,
            max_depth: self.max_depth,
            spaces_per_indent: self.spaces_per_indent,
        }
    }
}

/// The options used when none are given: no title, no depth bounds, two
/// spaces of indent per level.
pub open spec fn spec_default_toc_options() -> TocOptionsV {
    TocOptionsV {
        toc_title: Option::None,
        toc_title_level: Option::None,
        min_depth: Option::None,
        max_depth: Option::None,
        spaces_per_indent: Option::Some(2),
    }
}

impl Default for TocOptions {
    /// The default options, as `spec_default_toc_options` gives them.
    fn default() -> (r: Self)
        ensures
            r.deep_view() == spec_default_toc_options(),
    {
        TocOptions {
            toc_title: Option::None,
            toc_title_level: Option::None,
            min_depth: Option::None,
            max_depth: Option::None,
            spaces_per_indent: Option::Some(2),
        }
    }
}

/// Why no table of contents could be made.
#[derive(Clone, Debug, Eq, PartialEq)]
pub enum TocError {
    /// The document has no heading to list.
    NoHeadings,
}

impl TocError {
    /// A short account of the error.
    pub fn message(&self) -> (r: String)
        ensures
            r@ == "No headings found in the document"@,
    {
        String::from_str("No headings found in the document")
    }
}

/// The position of the first line break, or the length if there is none.
pub open spec fn first_nl(s: Seq<char>) -> nat
    decreases s.len(),
{
    if s.len() == 0 {
        0
    } else if s[0] == '\n' {
        0
    } else {
        1 + first_nl(s.drop_first())
    }
}

/// The sequence without one trailing carriage return, if it ends in one.
pub open spec fn strip_cr(s: Seq<char>) -> Seq<char> {
    if s.len() > 0 && s.last() == '\r' {
        s.drop_last()
    } else {
        s
    }
}

/// The lines of a text: the pieces between line breaks, each without a
/// trailing carriage return; a final line break opens no further line.
pub open spec fn spec_lines(s: Seq<char>) -> Seq<Seq<char>>
    decreases s.len(),
{
    if s.len() == 0 {
        Seq::empty()
    } else {
        let i = first_nl(s) as int;
        if i >= s.len() {
            seq![strip_cr(s)]
        } else {
            seq![strip_cr(s.take(i))] + spec_lines(s.skip(i + 1))
        }
    }
}

/// The first break sits where the first `'\n'` sits.
proof fn lemma_first_nl_at(s: Seq<char>, k: int)
    requires
        0 <= k <= s.len(),
        forall|j: int| 0 <= j < k ==> s[j] != '\n',
        k < s.len() ==> s[k] == '\n',
    ensures
        first_nl(s) == k,
    decreases k,
{
    if s.len() == 0 {
    } else if k == 0 {
    } else {
        assert(s[0] != '\n');
        assert(forall|j: int| 0 <= j < k - 1 ==> s.drop_first()[j] != '\n');
        lemma_first_nl_at(s.drop_first(), k - 1);
    }
}

/// Splits a text into its lines.
pub fn split_lines(content: &str) -> (r: Vec<String>)
    ensures
        r.deep_view() == spec_lines(content@),
{
    let len: usize = content.unicode_len();
    let mut out: Vec<String> = Vec::new();
    let mut start: usize = 0;
    let mut i: usize = 0;
    proof {
        assert(content@.skip(0) =~= content@);
    }
    while i < len
        invariant
            0 <= start <= i <= len,
            len == content@.len(),
            forall|j: int| start <= j < i ==> content@[j] != '\n',
            spec_lines(content@) =~= out.deep_view() + spec_lines(content@.skip(start as int)),
        decreases len - i,
    {
        let c = content.get_char(i);
        if c == '\n' {
            let end: usize = if i > start && content.get_char(i - 1) == '\r' {
                i - 1
            } else {
                i
            };
            let piece = content.substring_char(start, end);
            let ghost tail = content@.skip(start as int);
            proof {
                assert(forall|j: int| 0 <= j < i - start ==> tail[j] != '\n');
                assert(tail[i - start] == '\n');
                lemma_first_nl_at(tail, i - start);
                assert(tail.take(i - start) =~= content@.subrange(start as int, i as int));
                assert(tail.skip(i - start + 1) =~= content@.skip(i as int + 1));
                assert(strip_cr(tail.take(i - start)) =~= content@.subrange(
                    start as int,
                    end as int,
                ));
            }
            let ghost pre = out.deep_view();
            out.push(String::from_str(piece));
            proof {
                assert(out.deep_view() =~= pre.push(content@.subrange(start as int, end as int)));
                assert(spec_lines(tail) =~= seq![strip_cr(tail.take(i - start))] + spec_lines(
                    content@.skip(i as int + 1),
                ));
                assert(spec_lines(content@) =~= out.deep_view() + spec_lines(
                    content@.skip(i as int + 1),
                ));
            }
            start = i + 1;
        }
        i = i + 1;
    }
    if start < len {
        let end: usize = if len > start && content.get_char(len - 1) == '\r' {
            len - 1
        } else {
            len
        };
        let piece = content.substring_char(start, end);
        let ghost tail = content@.skip(start as int);
        proof {
            assert(forall|j: int| 0 <= j < tail.len() ==> tail[j] != '\n');
            lemma_first_nl_at(tail, tail.len() as int);
            assert(tail =~= content@.subrange(start as int, len as int));
            assert(strip_cr(tail) =~= content@.subrange(start as int, end as int));
            assert(spec_lines(tail) =~= seq![strip_cr(tail)]);
        }
        let ghost pre = out.deep_view();
        out.push(String::from_str(piece));
        proof {
            assert(out.deep_view() =~= pre.push(content@.subrange(start as int, end as int)));
        }
    } else {
        proof {
            assert(content@.skip(start as int).len() == 0);
        }
    }
    proof {
        assert(out.deep_view() =~= spec_lines(content@));
    }
    out
}

/// A run of `n` copies of one character.
pub open spec fn char_run(c: char, n: nat) -> Seq<char> {
    Seq::new(n, |i: int| c)
}

/// Whether `s` begins with the prefix `p`.
pub open spec fn begins_with(p: Seq<char>, s: Seq<char>) -> bool {
    s.len() >= p.len() && s.take(p.len() as int) == p
}

/// A space turned into a hyphen, any other character kept.
pub open spec fn dash_char(c: char) -> char {
    if c == ' ' {
        '-'
    } else {
        c
    }
}

/// Space characters turned into hyphens, everything else kept.
pub open spec fn spec_dashify(s: Seq<char>) -> Seq<char> {
    s.map_values(|c: char| dash_char(c))
}

/// Only letters, digits and hyphens kept, in order.
pub open spec fn spec_keep_slug_chars(s: Seq<char>) -> Seq<char>
    decreases s.len(),
{
    if s.len() == 0 {
        s
    } else {
        let prev = spec_keep_slug_chars(s.drop_last());
        if is_alnum_char(s.last()) || s.last() == '-' {
            prev.push(s.last())
        } else {
            prev
        }
    }
}

/// The slug of a heading: its lowercase form with spaces turned into
/// hyphens and everything but letters, digits and hyphens dropped.
pub open spec fn spec_slugify(s: Seq<char>) -> Seq<char> {
    spec_keep_slug_chars(spec_dashify(lower_of(s)))
}

/// Turns a heading title into its slug.
pub fn slugify(text: &str) -> (r: String)
    ensures
        r@ == spec_slugify(text@),
{
    let lowered = lowercase(text);
    let ghost base = spec_dashify(lower_of(text@));
    let len: usize = lowered.as_str().unicode_len();
    let mut out = String::new();
    let mut i: usize = 0;
    while i < len
        invariant
            0 <= i <= len,
            len == lowered@.len(),
            lowered@ == lower_of(text@),
            base == spec_dashify(lower_of(text@)),
            base.len() == len,
            out@ == spec_keep_slug_chars(base.take(i as int)),
        decreases len - i,
    {
        let c = lowered.as_str().get_char(i);
        let d: char = if c == ' ' {
            '-'
        } else {
            c
        };
        proof {
            assert(base[i as int] == dash_char(lower_of(text@)[i as int]));
            assert(base[i as int] == d);
            assert(base.take(i as int + 1).drop_last() =~= base.take(i as int));
            assert(base.take(i as int + 1).last() == base[i as int]);
        }
        if char_is_alphanumeric(d) || d == '-' {
            push_char(&mut out, d);
        }
        i = i + 1;
    }
    proof {
        assert(base.take(len as int) =~= base);
    }
    out
}

/// The number of leading hash marks of a line.
pub open spec fn hash_prefix_len(s: Seq<char>) -> nat
    decreases s.len(),
{
    if s.len() == 0 {
        0
    } else if s[0] != '#' {
        0
    } else {
        1 + hash_prefix_len(s.drop_first())
    }
}

/// The hash-mark count stops exactly at the first other character.
proof fn lemma_hash_prefix_at(s: Seq<char>, k: int)
    requires
        0 <= k <= s.len(),
        forall|j: int| 0 <= j < k ==> s[j] == '#',
        k < s.len() ==> s[k] != '#',
    ensures
        hash_prefix_len(s) == k,
    decreases k,
{
    if s.len() == 0 {
    } else if k == 0 {
    } else {
        assert(s[0] == '#');
        assert(forall|j: int| 0 <= j < k - 1 ==> s.drop_first()[j] == '#');
        lemma_hash_prefix_at(s.drop_first(), k - 1);
    }
}

/// The depth bound of the options, or the fallback where it is absent.
pub open spec fn opt_usize_or(o: Option<usize>, fallback: usize) -> usize {
    match o {
        Option::Some(v) => v,
        Option::None => fallback,
    }
}

/// Whether a heading of this level is kept under the options' bounds.
pub open spec fn spec_depth_kept(level: nat, opts: TocOptionsV) -> bool {
    &&& match opts.min_depth {
        Option::Some(m) => level >= m,
        Option::None => true,
    }
    &&& match opts.max_depth {
        Option::Some(m) => level <= m,
        Option::None => true,
    }
}

/// The list entry of one heading line: the indent by depth, the title as
/// a link to its slug, and a line break.
pub open spec fn spec_entry(line: Seq<char>, opts: TocOptionsV) -> Seq<char> {
    let level = hash_prefix_len(line);
    let title = spec_trim(line.skip(level as int));
    let indent_levels = (level - opt_usize_or(opts.min_depth, 1)) as nat;
    char_run(' ', (indent_levels * opt_usize_or(opts.spaces_per_indent, 2)) as nat) + "- ["@
        + title + "](#"@ + spec_slugify(title) + ")\n"@
}

/// The accumulated list text and the code-fence state after the first
/// `n` lines: a fence line toggles the state, lines inside a fence are
/// passed over, and each kept heading line appends its entry.
pub open spec fn spec_toc_state(lines: Seq<Seq<char>>, n: int, opts: TocOptionsV) -> (Seq<char>, bool)
    decreases n,
{
    if n <= 0 {
        (Seq::empty(), false)
    } else {
        let (acc, in_code) = spec_toc_state(lines, n - 1, opts);
        let line = lines[n - 1];
        let in_code_now = if begins_with(seq!['`', '`', '`'], line) {
            !in_code
        } else {
            in_code
        };
        if in_code_now {
            (acc, in_code_now)
        } else if begins_with(seq!['#'], line) && spec_depth_kept(hash_prefix_len(line), opts) {
            (acc + spec_entry(line, opts), in_code_now)
        } else {
            (acc, in_code_now)
        }
    }
}

/// The list text of a whole document.
pub open spec fn spec_toc_body(content: Seq<char>, opts: TocOptionsV) -> Seq<char> {
    spec_toc_state(spec_lines(content), spec_lines(content).len() as int, opts).0
}

/// The finished table of contents: the body, under the optional title.
pub open spec fn spec_titled(body: Seq<char>, opts: TocOptionsV) -> Seq<char> {
    match opts.toc_title {
        Option::None => body,
        Option::Some(title) => (match opts.toc_title_level {
            Option::Some(level) => char_run('#', level as nat) + " "@ + title + "\n"@,
            Option::None => title + "\n"@,
        }) + "\n"@ + body,
    }
}

/// What making a table of contents returns: nothing when the document has
/// no kept heading, else the titled list.
pub open spec fn spec_toc_result(content: Seq<char>, opts: TocOptionsV) -> Option<Seq<char>> {
    let body = spec_toc_body(content, opts);
    if body.len() == 0 {
        Option::None
    } else {
        Option::Some(spec_titled(body, opts))
    }
}

/// The given options' view, or the default one.
pub open spec fn spec_opts_of(options: Option<&TocOptions>) -> TocOptionsV {
    match options {
        Option::Some(o) => o.deep_view(),
        Option::None => spec_default_toc_options(),
    }
}

/// Builds the table of contents of a Markdown document, as
/// `spec_toc_result` says: one linked entry per heading outside code
/// fences and within the depth bounds, or the no-headings error when
/// nothing is left.
pub fn make_markdown_table_of_contents(content: &String, options: Option<&TocOptions>) -> (r:
    Result<String, TocError>)
    ensures
        match r {
            Result::Ok(s) => spec_toc_result(content@, spec_opts_of(options)) == Option::Some(s@),
            Result::Err(e) => spec_toc_result(content@, spec_opts_of(options)) is None && e
                == TocError::NoHeadings,
        },
{
    let ghost opts_v = spec_opts_of(options);
    let lines = split_lines(content.as_str());
    let ghost lines_v = lines.deep_view();
    let mut toc = String::new();
    let mut in_code = false;
    let mut n: usize = 0;
    while n < lines.len()
        invariant
            0 <= n <= lines@.len(),
            lines_v == lines.deep_view(),
            lines_v.len() == lines@.len(),
            opts_v == spec_opts_of(options),
            (toc@, in_code) == spec_toc_state(lines_v, n as int, opts_v),
        decreases lines@.len() - n,
    {
        let line = &lines[n];
        let ghost line_v = lines_v[n as int];
        proof {
            assert(line_v == lines@[n as int]@);
        }
        let line_len: usize = line.as_str().unicode_len();
        // A fence line toggles the code-block state.
        let is_fence: bool = line_len >= 3 && line.as_str().get_char(0) == '`'
            && line.as_str().get_char(1) == '`' && line.as_str().get_char(2) == '`';
        proof {
            if is_fence {
                assert(line_v.take(3) =~= seq!['`', '`', '`']);
            }
            if begins_with(seq!['`', '`', '`'], line_v) {
                assert(line_v.take(3)[0] == line_v[0]);
                assert(line_v.take(3)[1] == line_v[1]);
                assert(line_v.take(3)[2] == line_v[2]);
                assert(seq!['`', '`', '`'][0] == '`');
                assert(seq!['`', '`', '`'][1] == '`');
                assert(seq!['`', '`', '`'][2] == '`');
            }
            assert(is_fence == begins_with(seq!['`', '`', '`'], line_v));
        }
        if is_fence {
            in_code = !in_code;
        }
        if !in_code {
            let is_heading: bool = line_len >= 1 && line.as_str().get_char(0) == '#';
            proof {
                if is_heading {
                    assert(line_v.take(1) =~= seq!['#']);
                }
                if begins_with(seq!['#'], line_v) {
                    assert(line_v.take(1)[0] == line_v[0]);
                    assert(seq!['#'][0] == '#');
                }
                assert(is_heading == begins_with(seq!['#'], line_v));
            }
            if is_heading {
                // Count the leading hash marks to find the heading level.
                let mut level: usize = 0;
                loop
                    invariant
                        0 <= level <= line_len,
                        line_len == line_v.len(),
                        line@ == line_v,
                        forall|j: int| 0 <= j < level ==> line_v[j] == '#',
                    ensures
                        0 <= level <= line_len,
                        forall|j: int| 0 <= j < level ==> line_v[j] == '#',
                        level < line_len ==> line_v[level as int] != '#',
                    decreases line_len - level,
                {
                    if level == line_len {
                        break;
                    }
                    if line.as_str().get_char(level) != '#' {
                        break;
                    }
                    level = level + 1;
                }
                proof {
                    lemma_hash_prefix_at(line_v, level as int);
                }
                let kept: bool = (match options {
                    Option::Some(o) => match o.min_depth {
                        Option::Some(m) => level >= m,
                        Option::None => true,
                    },
                    Option::None => true,
                }) && (match options {
                    Option::Some(o) => match o.max_depth {
                        Option::Some(m) => level <= m,
                        Option::None => true,
                    },
                    Option::None => true,
                });
                proof {
                    assert(kept == spec_depth_kept(hash_prefix_len(line_v), opts_v));
                }
                if kept {
                    let rest = line.as_str().substring_char(level, line_len);
                    let title = trim_str(rest);
                    proof {
                        assert(rest@ =~= line_v.skip(level as int));
                        assert(title@ == spec_trim(line_v.skip(level as int)));
                    }
                    let slug = slugify(title.as_str());
                    let min_depth: usize = match options {
                        Option::Some(o) => match o.min_depth {
                            Option::Some(m) => m,
                            Option::None => 1,
                        },
                        Option::None => 1,
                    };
                    let spaces: usize = match options {
                        Option::Some(o) => match o.spaces_per_indent {
                            Option::Some(m) => m,
                            Option::None => 2,
                        },
                        Option::None => 2,
                    };
                    let ghost entry_v = spec_entry(line_v, opts_v);
                    let ghost indent_levels = (hash_prefix_len(line_v) - min_depth) as nat;
                    let mut entry = String::new();
                    let mut d: usize = 0;
                    while d < level - min_depth
                        invariant
                            level >= min_depth,
                            0 <= d <= level - min_depth,
                            entry@ =~= char_run(' ', (d * spaces) as nat),
                        decreases level - min_depth - d,
                    {
                        let mut k: usize = 0;
                        while k < spaces
                            invariant
                                0 <= k <= spaces,
                                entry@ =~= char_run(' ', ((d * spaces) + k) as nat),
                            decreases spaces - k,
                        {
                            push_char(&mut entry, ' ');
                            proof {
                                assert(entry@ =~= char_run(' ', ((d * spaces) + k + 1) as nat));
                            }
                            k = k + 1;
                        }
                        proof {
                            assert((d + 1) * spaces == d * spaces + spaces) by (nonlinear_arith);
                        }
                        d = d + 1;
                    }
                    proof {
                        assert(entry@ =~= char_run(' ', (indent_levels * spaces) as nat));
                        assert(indent_levels * opt_usize_or(opts_v.spaces_per_indent, 2)
                            == indent_levels * spaces);
                    }
                    entry.append("- [");
                    entry.append(title.as_str());
                    entry.append("](#");
                    entry.append(slug.as_str());
                    entry.append(")\n");
                    proof {
                        assert(entry@ == entry_v);
                    }
                    toc.append(entry.as_str());
                }
            }
        }
        proof {
            assert((toc@, in_code) == spec_toc_state(lines_v, n as int + 1, opts_v));
        }
        n = n + 1;
    }
    proof {
        assert(toc@ == spec_toc_body(content@, opts_v));
    }
    if toc.as_str().is_empty() {
        return Result::Err(TocError::NoHeadings);
    }
    // Set the optional title, with its own heading marks, over the list.
    let titled: String = match options {
        Option::Some(o) => match &o.toc_title {
            Option::Some(title) => {
                let mut head = String::new();
                match o.toc_title_level {
                    Option::Some(title_level) => {
                        let mut k: usize = 0;
                        while k < title_level
                            invariant
                                0 <= k <= title_level,
                                head@ =~= char_run('#', k as nat),
                            decreases title_level - k,
                        {
                            push_char(&mut head, '#');
                            proof {
                                assert(head@ =~= char_run('#', (k + 1) as nat));
                            }
                            k = k + 1;
                        }
                        head.append(" ");
                        head.append(title.as_str());
                        head.append("\n");
                    },
                    Option::None => {
                        head.append(title.as_str());
                        head.append("\n");
                    },
                }
                head.append("\n");
                head.append(toc.as_str());
                head
            },
            Option::None => toc,
        },
        Option::None => toc,
    };
    proof {
        assert(titled@ == spec_titled(spec_toc_body(content@, opts_v), opts_v));
    }
    Result::Ok(titled)
}

/// Sets the table of contents, when one can be made, in front of the
/// document, separated by a blank line; a document without headings comes
/// back unchanged.
pub fn prepend_markdown_table_of_contents(content: &String, options: Option<&TocOptions>) -> (r:
    String)
    ensures
        r@ == match spec_toc_result(content@, spec_opts_of(options)) {
            Option::Some(t) => t + "\n\n"@ + content@,
            Option::None => content@,
        },
{
    match make_markdown_table_of_contents(content, options) {
        Result::Ok(toc) => {
            let mut out = toc;
            out.append("\n\n");
            out.append(content.as_str());
            out
        },
        Result::Err(_) => content.clone(),
    }
}

} // verus!
