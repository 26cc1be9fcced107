//! Per-file analyses: dependency detection, function extraction and
//! annotation extraction, driven by the pattern library.

use vstd::prelude::*;

use crate::patterns::{
    go_import_search, js_func_search, js_import_search, js_require_search, kw_from, kw_import,
    kw_use, marker_text, py_from_at, py_func_at, py_import_at, rust_func_search, rust_use_at,
    todo_search, go_import_scan, js_func_scan, js_import_scan, js_require_scan, marker_string,
    py_from_match, py_func_match, py_import_match, rust_func_scan, rust_use_match, todo_scan,
};
use crate::text::{
    count_char, join_lines, lines_view, skip_spaces, spec_lines, spec_trim, chars_to_string,
    count_char_x, push_all, skip_spaces_x, split_lines, str_eq, str_to_chars, trim_vec,
};

verus! {

// ---------------------------------------------------------------------------
// Language families
// ---------------------------------------------------------------------------

/// Classification of a file by its extension: brace-delimited blocks with
/// `//` and `/* */` comments, indentation-delimited blocks with `#`
/// comments, or an unsupported language left untouched.
#[derive(Clone, Copy, Debug, PartialEq, Eq, Structural)]
pub enum LanguageFamily {
    Brace,
    Indent,
    Unsupported,
}

/// Extensions of the brace family, as the comment filter groups them.
pub open spec fn is_brace_ext(e: Seq<char>) -> bool {
    e == "js"@ || e == "jsx"@ || e == "ts"@ || e == "tsx"@ || e == "rs"@ || e == "go"@
        || e == "java"@ || e == "c"@ || e == "cpp"@
}

/// Extensions of the indentation family, as the comment filter groups them.
pub open spec fn is_indent_ext(e: Seq<char>) -> bool {
    e == "py"@ || e == "sh"@ || e == "bash"@
}

pub open spec fn spec_language_family(e: Seq<char>) -> LanguageFamily {
    if is_brace_ext(e) {
        LanguageFamily::Brace
    } else if is_indent_ext(e) {
        LanguageFamily::Indent
    } else {
        LanguageFamily::Unsupported
    }
}

/// Map an extension (without its leading dot) to its language family.
pub fn language_family(extension: &str) -> (r: LanguageFamily)
    ensures
        r == spec_language_family(extension@),
{
    if str_eq(extension, "js") || str_eq(extension, "jsx") || str_eq(extension, "ts") || str_eq(
        extension,
        "tsx",
    ) || str_eq(extension, "rs") || str_eq(extension, "go") || str_eq(extension, "java")
        || str_eq(extension, "c") || str_eq(extension, "cpp") {
        LanguageFamily::Brace
    } else if str_eq(extension, "py") || str_eq(extension, "sh") || str_eq(extension, "bash") {
        LanguageFamily::Indent
    } else {
        LanguageFamily::Unsupported
    }
}

// ---------------------------------------------------------------------------
// Result records and their models
// ---------------------------------------------------------------------------

/// One detected import statement.
#[derive(Debug, Clone)]
pub struct Dependency {
    pub file: String,
    pub dependency: String,
    pub import_type: String,
    pub line_number: usize,
}

/// The mathematical content of a `Dependency`.
pub ghost struct DepModel {
    pub file: Seq<char>,
    pub dependency: Seq<char>,
    pub import_type: Seq<char>,
    pub line_number: int,
}

impl View for Dependency {
    type V = DepModel;

    open spec fn view(&self) -> DepModel {
        DepModel {
            file: self.file@,
            dependency: self.dependency@,
            import_type: self.import_type@,
            line_number: self.line_number as int,
        }
    }
}

pub open spec fn deps_view(s: Seq<Dependency>) -> Seq<DepModel> {
    Seq::new(s.len(), |i: int| s[i]@)
}

/// One extracted function record.
#[derive(Debug, Clone)]
pub struct Function {
    pub file: String,
    pub name: String,
    pub signature: String,
    pub line_start: usize,
    pub line_end: usize,
    pub content: String,
}

/// The mathematical content of a `Function`.
pub ghost struct FuncModel {
    pub file: Seq<char>,
    pub name: Seq<char>,
    pub signature: Seq<char>,
    pub line_start: int,
    pub line_end: int,
    pub content: Seq<char>,
}

impl View for Function {
    type V = FuncModel;

    open spec fn view(&self) -> FuncModel {
        FuncModel {
            file: self.file@,
            name: self.name@,
            signature: self.signature@,
            line_start: self.line_start as int,
            line_end: self.line_end as int,
            content: self.content@,
        }
    }
}

pub open spec fn funcs_view(s: Seq<Function>) -> Seq<FuncModel> {
    Seq::new(s.len(), |i: int| s[i]@)
}

/// One annotation (TODO-class) comment.
#[derive(Debug, Clone)]
pub struct TodoItem {
    pub file: String,
    pub todo_type: String,
    pub message: String,
    pub line_number: usize,
    pub context: String,
}

/// The mathematical content of a `TodoItem`.
pub ghost struct TodoModel {
    pub file: Seq<char>,
    pub todo_type: Seq<char>,
    pub message: Seq<char>,
    pub line_number: int,
    pub context: Seq<char>,
}

impl View for TodoItem {
    type V = TodoModel;

    open spec fn view(&self) -> TodoModel {
        TodoModel {
            file: self.file@,
            todo_type: self.todo_type@,
            message: self.message@,
            line_number: self.line_number as int,
            context: self.context@,
        }
    }
}

pub open spec fn todos_view(s: Seq<TodoItem>) -> Seq<TodoModel> {
    Seq::new(s.len(), |i: int| s[i]@)
}

// ---------------------------------------------------------------------------
// Dependency detection
// ---------------------------------------------------------------------------

pub open spec fn kind_require() -> Seq<char> {
    seq!['r', 'e', 'q', 'u', 'i', 'r', 'e']
}

/// Dependencies contributed by one brace-family line: an `import ... from`
/// match, then a `require(...)` match, each at most once.
pub open spec fn js_line_deps(file: Seq<char>, line: Seq<char>, ln: int) -> Seq<DepModel> {
    let a: Seq<DepModel> = match js_import_search(line, 0) {
        Some(d) => seq![
            DepModel { file, dependency: d, import_type: kw_import(), line_number: ln },
        ],
        None => Seq::empty(),
    };
    let b: Seq<DepModel> = match js_require_search(line, 0) {
        Some(d) => seq![
            DepModel { file, dependency: d, import_type: kind_require(), line_number: ln },
        ],
        None => Seq::empty(),
    };
    a + b
}

/// Dependencies contributed by one indentation-family line, matched on its
/// trimmed form: a leading `import`, then a leading `from ... import`.
pub open spec fn py_line_deps(file: Seq<char>, line: Seq<char>, ln: int) -> Seq<DepModel> {
    let t = spec_trim(line);
    let a: Seq<DepModel> = match py_import_at(t) {
        Some(d) => seq![
            DepModel { file, dependency: d, import_type: kw_import(), line_number: ln },
        ],
        None => Seq::empty(),
    };
    let b: Seq<DepModel> = match py_from_at(t) {
        Some(d) => seq![DepModel { file, dependency: d, import_type: kw_from(), line_number: ln }],
        None => Seq::empty(),
    };
    a + b
}

pub open spec fn rust_line_deps(file: Seq<char>, line: Seq<char>, ln: int) -> Seq<DepModel> {
    match rust_use_at(spec_trim(line)) {
        Some(d) => seq![DepModel { file, dependency: d, import_type: kw_use(), line_number: ln }],
        None => Seq::empty(),
    }
}

pub open spec fn go_line_deps(file: Seq<char>, line: Seq<char>, ln: int) -> Seq<DepModel> {
    match go_import_search(line, 0) {
        Some(d) => seq![
            DepModel { file, dependency: d, import_type: kw_import(), line_number: ln },
        ],
        None => Seq::empty(),
    }
}

/// Which detector's line rule applies, keyed by extension.
#[derive(Clone, Copy, Debug, PartialEq, Eq, Structural)]
pub enum DetectKind {
    BraceLike,
    IndentLike,
    UseLike,
    QuoteLike,
    NoDetect,
}

pub open spec fn spec_detect_kind(e: Seq<char>) -> DetectKind {
    if e == "js"@ || e == "jsx"@ || e == "ts"@ || e == "tsx"@ || e == "mjs"@ {
        DetectKind::BraceLike
    } else if e == "py"@ {
        DetectKind::IndentLike
    } else if e == "rs"@ {
        DetectKind::UseLike
    } else if e == "go"@ {
        DetectKind::QuoteLike
    } else {
        DetectKind::NoDetect
    }
}

pub open spec fn line_deps(
    kind: DetectKind,
    file: Seq<char>,
    line: Seq<char>,
    ln: int,
) -> Seq<DepModel> {
    match kind {
        DetectKind::BraceLike => js_line_deps(file, line, ln),
        DetectKind::IndentLike => py_line_deps(file, line, ln),
        DetectKind::UseLike => rust_line_deps(file, line, ln),
        DetectKind::QuoteLike => go_line_deps(file, line, ln),
        DetectKind::NoDetect => Seq::empty(),
    }
}

/// All dependencies from line `k` (0-based) on; line numbers are 1-based.
pub open spec fn deps_from(
    kind: DetectKind,
    file: Seq<char>,
    ls: Seq<Seq<char>>,
    k: int,
) -> Seq<DepModel>
    decreases ls.len() - k,
{
    if k < 0 || k >= ls.len() {
        Seq::empty()
    } else {
        line_deps(kind, file, ls[k], k + 1) + deps_from(kind, file, ls, k + 1)
    }
}

/// What the dependency detector returns for a file's content and extension.
pub open spec fn spec_detect_dependencies(
    file: Seq<char>,
    content: Seq<char>,
    extension: Seq<char>,
) -> Seq<DepModel> {
    deps_from(spec_detect_kind(extension), file, spec_lines(content), 0)
}

fn detect_kind_x(extension: &str) -> (r: DetectKind)
    ensures
        r == spec_detect_kind(extension@),
{
    if str_eq(extension, "js") || str_eq(extension, "jsx") || str_eq(extension, "ts") || str_eq(
        extension,
        "tsx",
    ) || str_eq(extension, "mjs") {
        DetectKind::BraceLike
    } else if str_eq(extension, "py") {
        DetectKind::IndentLike
    } else if str_eq(extension, "rs") {
        DetectKind::UseLike
    } else if str_eq(extension, "go") {
        DetectKind::QuoteLike
    } else {
        DetectKind::NoDetect
    }
}

fn push_dep(
    out: &mut Vec<Dependency>,
    file: &str,
    dep: Vec<char>,
    kind_str: String,
    ln: usize,
)
    ensures
        deps_view(final(out)@) =~= deps_view(old(out)@).push(
            DepModel {
                file: file@,
                dependency: dep@,
                import_type: kind_str@,
                line_number: ln as int,
            },
        ),
{
    let d = Dependency {
        file: String::from_str(file),
        dependency: chars_to_string(&dep),
        import_type: kind_str,
        line_number: ln,
    };
    let ghost pre = deps_view(out@);
    out.push(d);
    proof {
        assert(deps_view(out@) =~= pre.push(d@));
    }
}

fn import_kind_string() -> (r: String)
    ensures
        r@ == kw_import(),
{
    proof {
        reveal_strlit("import");
        assert("import"@ =~= kw_import());
    }
    String::from_str("import")
}

fn require_kind_string() -> (r: String)
    ensures
        r@ == kind_require(),
{
    proof {
        reveal_strlit("require");
        assert("require"@ =~= kind_require());
    }
    String::from_str("require")
}

fn from_kind_string() -> (r: String)
    ensures
        r@ == kw_from(),
{
    proof {
        reveal_strlit("from");
        assert("from"@ =~= kw_from());
    }
    String::from_str("from")
}

fn use_kind_string() -> (r: String)
    ensures
        r@ == kw_use(),
{
    proof {
        reveal_strlit("use");
        assert("use"@ =~= kw_use());
    }
    String::from_str("use")
}

/// Detect import statements in `content`, read as a file named `file` with
/// the given extension.  The result lists one entry per match, in line
/// order and, within a line, in pattern order; unsupported extensions give
/// an empty list.  An empty content never yields a dependency.
pub fn detect_dependencies(file: &str, content: &str, extension: &str) -> (r: Vec<Dependency>)
    ensures
        deps_view(r@) == spec_detect_dependencies(file@, content@, extension@),
        content@.len() == 0 ==> r@.len() == 0,
{
    let kind = detect_kind_x(extension);
    let chars = str_to_chars(content);
    let lines = split_lines(&chars);
    let ghost lv = spec_lines(content@);
    let mut out: Vec<Dependency> = Vec::new();
    let mut k: usize = 0;
    proof {
        assert(deps_view(out@) + deps_from(kind, file@, lv, 0) =~= deps_from(
            kind,
            file@,
            lv,
            0,
        ));
    }
    loop
        invariant
            k <= lines.len(),
            kind == spec_detect_kind(extension@),
            lv == spec_lines(content@),
            lines_view(lines@) == lv,
            lines.len() == lv.len(),
            deps_from(kind, file@, lv, 0) =~= deps_view(out@) + deps_from(
                kind,
                file@,
                lv,
                k as int,
            ),
        decreases lines.len() - k,
    {
        if k == lines.len() {
            proof {
                assert(deps_from(kind, file@, lv, k as int).len() == 0);
                assert(deps_view(out@) =~= deps_view(out@) + deps_from(kind, file@, lv, k as int));
                if content@.len() == 0 {
                    assert(spec_lines(content@).len() == 0);
                }
            }
            return out;
        }
        let line = &lines[k];
        assert(line@ == lv[k as int]);
        let ghost pre = deps_view(out@);
        match kind {
            DetectKind::BraceLike => {
                match js_import_scan(line) {
                    Some(d) => {
                        push_dep(&mut out, file, d, import_kind_string(), k + 1);
                    },
                    None => {},
                }
                match js_require_scan(line) {
                    Some(d) => {
                        push_dep(&mut out, file, d, require_kind_string(), k + 1);
                    },
                    None => {},
                }
                proof {
                    assert(deps_view(out@) =~= pre + js_line_deps(file@, lv[k as int], k + 1));
                }
            },
            DetectKind::IndentLike => {
                let t = trim_vec(line);
                match py_import_match(&t) {
                    Some(d) => {
                        push_dep(&mut out, file, d, import_kind_string(), k + 1);
                    },
                    None => {},
                }
                match py_from_match(&t) {
                    Some(d) => {
                        push_dep(&mut out, file, d, from_kind_string(), k + 1);
                    },
                    None => {},
                }
                proof {
                    assert(deps_view(out@) =~= pre + py_line_deps(file@, lv[k as int], k + 1));
                }
            },
            DetectKind::UseLike => {
                let t = trim_vec(line);
                match rust_use_match(&t) {
                    Some(d) => {
                        push_dep(&mut out, file, d, use_kind_string(), k + 1);
                    },
                    None => {},
                }
                proof {
                    assert(deps_view(out@) =~= pre + rust_line_deps(file@, lv[k as int], k + 1));
                }
            },
            DetectKind::QuoteLike => {
                match go_import_scan(line) {
                    Some(d) => {
                        push_dep(&mut out, file, d, import_kind_string(), k + 1);
                    },
                    None => {},
                }
                proof {
                    assert(deps_view(out@) =~= pre + go_line_deps(file@, lv[k as int], k + 1));
                }
            },
            DetectKind::NoDetect => {
                proof {
                    assert(deps_view(out@) =~= pre + line_deps(
                        kind,
                        file@,
                        lv[k as int],
                        k + 1,
                    ));
                }
            },
        }
        proof {
            assert(deps_from(kind, file@, lv, k as int) =~= line_deps(
                kind,
                file@,
                lv[k as int],
                k + 1,
            ) + deps_from(kind, file@, lv, k as int + 1));
            assert(deps_from(kind, file@, lv, 0) =~= deps_view(out@) + deps_from(
                kind,
                file@,
                lv,
                k as int + 1,
            ));
        }
        k += 1;
    }
}

// ---------------------------------------------------------------------------
// Function extraction
// ---------------------------------------------------------------------------

/// Opening minus closing braces on a line.
pub open spec fn brace_delta(line: Seq<char>) -> int {
    count_char(line, '{') - count_char(line, '}')
}

/// Forward scan for the line on which the brace depth returns to zero,
/// starting with `depth` carried over the lines before `i`.  The scan is
/// capped 1000 lines past the declaration line `l`; a scan that runs out of
/// lines, or runs into the cap, falls back to `l` itself.
pub open spec fn brace_scan(ls: Seq<Seq<char>>, l: int, i: int, depth: int) -> int
    decreases ls.len() - i,
{
    if i < 0 || i >= ls.len() {
        l
    } else {
        let d = depth + brace_delta(ls[i]);
        if d == 0 {
            i
        } else if i - l > 1000 {
            l
        } else {
            brace_scan(ls, l, i + 1, d)
        }
    }
}

/// Last line (0-based) of a brace-delimited body declared on line `l`.
pub open spec fn brace_end(ls: Seq<Seq<char>>, l: int) -> int {
    brace_scan(ls, l, l + 1, brace_delta(ls[l]))
}

proof fn lemma_brace_scan_range(ls: Seq<Seq<char>>, l: int, i: int, depth: int)
    requires
        0 <= l < ls.len(),
        l < i,
    ensures
        l <= brace_scan(ls, l, i, depth) < ls.len(),
    decreases ls.len() - i,
{
    if 0 <= i && i < ls.len() {
        let d = depth + brace_delta(ls[i]);
        if d != 0 && i - l <= 1000 {
            lemma_brace_scan_range(ls, l, i + 1, d);
        }
    }
}

fn brace_end_x(lines: &Vec<Vec<char>>, l: usize) -> (r: usize)
    requires
        l < lines.len(),
    ensures
        r as int == brace_end(lines_view(lines@), l as int),
        l <= r < lines.len(),
{
    let ghost lv = lines_view(lines@);
    let o = count_char_x(&lines[l], '{');
    let c = count_char_x(&lines[l], '}');
    let mut depth: i128 = o as i128 - c as i128;
    let mut i: usize = l + 1;
    assert(depth as int == brace_delta(lv[l as int]));
    loop
        invariant
            l < i,
            i <= l + 1002,
            l < lines.len(),
            lv == lines_view(lines@),
            lines.len() == lv.len(),
            -18446744073709551616 * (2 + i - l) <= depth as int <= 18446744073709551616 * (2 + i
                - l),
            brace_end(lv, l as int) == brace_scan(lv, l as int, i as int, depth as int),
        decreases lines.len() + 1 - i,
    {
        if i >= lines.len() {
            assert(brace_scan(lv, l as int, i as int, depth as int) == l);
            return l;
        }
        let oi = count_char_x(&lines[i], '{');
        let ci = count_char_x(&lines[i], '}');
        let d: i128 = depth + (oi as i128 - ci as i128);
        assert(d as int == depth as int + brace_delta(lv[i as int]));
        if d == 0 {
            assert(brace_scan(lv, l as int, i as int, depth as int) == i);
            return i;
        }
        if i - l > 1000 {
            assert(brace_scan(lv, l as int, i as int, depth as int) == l);
            return l;
        }
        assert(brace_scan(lv, l as int, i as int, depth as int) == brace_scan(
            lv,
            l as int,
            i as int + 1,
            d as int,
        ));
        depth = d;
        i += 1;
    }
}

/// Number of leading white-space characters of a line.
pub open spec fn lead_ws(line: Seq<char>) -> int {
    skip_spaces(line, 0)
}

/// A line is blank when it holds only white space.
pub open spec fn is_blank(line: Seq<char>) -> bool {
    lead_ws(line) >= line.len()
}

/// Forward scan for the last line of an indentation-delimited body: the
/// body ends just before the first later non-blank line indented no deeper
/// than the declaration, or at the last line of the file.
pub open spec fn indent_scan(ls: Seq<Seq<char>>, base: int, i: int) -> int
    decreases ls.len() - i,
{
    if i < 1 || i >= ls.len() {
        i - 1
    } else if !is_blank(ls[i]) && lead_ws(ls[i]) <= base {
        i - 1
    } else {
        indent_scan(ls, base, i + 1)
    }
}

/// Last line (0-based) of an indentation-delimited body declared on `l`.
pub open spec fn indent_end(ls: Seq<Seq<char>>, l: int) -> int {
    indent_scan(ls, lead_ws(ls[l]), l + 1)
}

proof fn lemma_indent_scan_range(ls: Seq<Seq<char>>, base: int, i: int)
    requires
        1 <= i <= ls.len(),
    ensures
        i - 1 <= indent_scan(ls, base, i) < ls.len(),
    decreases ls.len() - i,
{
    if i < ls.len() && !(!is_blank(ls[i]) && lead_ws(ls[i]) <= base) {
        lemma_indent_scan_range(ls, base, i + 1);
    }
}

fn indent_end_x(lines: &Vec<Vec<char>>, l: usize) -> (r: usize)
    requires
        l < lines.len(),
    ensures
        r as int == indent_end(lines_view(lines@), l as int),
        l <= r < lines.len(),
{
    let ghost lv = lines_view(lines@);
    let base = skip_spaces_x(&lines[l], 0);
    assert(base as int == lead_ws(lv[l as int]));
    let mut i: usize = l + 1;
    loop
        invariant
            l < i <= lines.len(),
            l < lines.len(),
            lv == lines_view(lines@),
            lines.len() == lv.len(),
            base as int == lead_ws(lv[l as int]),
            indent_end(lv, l as int) == indent_scan(lv, base as int, i as int),
        decreases lines.len() - i,
    {
        if i == lines.len() {
            assert(indent_scan(lv, base as int, i as int) == i - 1);
            return i - 1;
        }
        let li = skip_spaces_x(&lines[i], 0);
        assert(li as int == lead_ws(lv[i as int]));
        if li < lines[i].len() && li <= base {
            assert(indent_scan(lv, base as int, i as int) == i - 1);
            return i - 1;
        }
        assert(indent_scan(lv, base as int, i as int) == indent_scan(
            lv,
            base as int,
            i as int + 1,
        ));
        i += 1;
    }
}

/// The lines `a..=b` joined with single newlines.
pub open spec fn join_range(ls: Seq<Seq<char>>, a: int, b: int) -> Seq<char> {
    if 0 <= a <= b < ls.len() {
        join_lines(ls.subrange(a, b + 1))
    } else {
        Seq::empty()
    }
}

fn join_range_x(lines: &Vec<Vec<char>>, a: usize, b: usize) -> (r: Vec<char>)
    requires
        a <= b < lines.len(),
    ensures
        r@ == join_range(lines_view(lines@), a as int, b as int),
{
    let ghost lv = lines_view(lines@);
    let mut out: Vec<char> = Vec::new();
    push_all(&mut out, &lines[a]);
    proof {
        let first = lv.subrange(a as int, a as int + 1);
        assert(first[0] == lv[a as int]);
        assert(crate::text::join_tail(first, 1).len() == 0);
        assert(out@ =~= join_lines(first));
    }
    let mut j: usize = a + 1;
    while j <= b
        invariant
            a < j <= b + 1,
            b < lines.len(),
            lv == lines_view(lines@),
            lines.len() == lv.len(),
            out@ =~= join_lines(lv.subrange(a as int, j as int)),
        decreases b + 1 - j,
    {
        out.push('\n');
        push_all(&mut out, &lines[j]);
        proof {
            let pre = lv.subrange(a as int, j as int);
            crate::text::lemma_join_lines_push(pre, lv[j as int]);
            assert(pre.push(lv[j as int]) =~= lv.subrange(a as int, j as int + 1));
            assert(out@ =~= join_lines(pre) + seq!['\n'] + lv[j as int]);
        }
        j += 1;
    }
    assert(out@ =~= join_range(lv, a as int, b as int));
    out
}

/// Which extractor applies, keyed by extension.
#[derive(Clone, Copy, Debug, PartialEq, Eq, Structural)]
pub enum ExtractKind {
    BraceDecl,
    IndentDecl,
    FnDecl,
    NoExtract,
}

pub open spec fn spec_extract_kind(e: Seq<char>) -> ExtractKind {
    if e == "js"@ || e == "jsx"@ || e == "ts"@ || e == "tsx"@ {
        ExtractKind::BraceDecl
    } else if e == "py"@ {
        ExtractKind::IndentDecl
    } else if e == "rs"@ {
        ExtractKind::FnDecl
    } else {
        ExtractKind::NoExtract
    }
}

/// The declaration found on a line, if any: the captured function name.
pub open spec fn line_decl(kind: ExtractKind, line: Seq<char>) -> Option<Seq<char>> {
    match kind {
        ExtractKind::BraceDecl => js_func_search(line, 0),
        ExtractKind::IndentDecl => py_func_at(spec_trim(line)),
        ExtractKind::FnDecl => rust_func_search(line, 0),
        ExtractKind::NoExtract => None,
    }
}

/// Last body line for a declaration on line `k`, by the family's heuristic.
pub open spec fn body_end(kind: ExtractKind, ls: Seq<Seq<char>>, k: int) -> int {
    if kind == ExtractKind::IndentDecl {
        indent_end(ls, k)
    } else {
        brace_end(ls, k)
    }
}

/// The record for a declaration of `name` on line `k` (0-based): 1-based
/// line numbers, the trimmed declaration line as signature, and the body
/// text joined from the spanned lines.
pub open spec fn func_record(
    kind: ExtractKind,
    file: Seq<char>,
    ls: Seq<Seq<char>>,
    k: int,
    name: Seq<char>,
) -> FuncModel {
    let e = body_end(kind, ls, k);
    FuncModel {
        file,
        name,
        signature: spec_trim(ls[k]),
        line_start: k + 1,
        line_end: e + 1,
        content: join_range(ls, k, e),
    }
}

/// All records from line `k` on.
pub open spec fn funcs_from(
    kind: ExtractKind,
    file: Seq<char>,
    ls: Seq<Seq<char>>,
    k: int,
) -> Seq<FuncModel>
    decreases ls.len() - k,
{
    if k < 0 || k >= ls.len() {
        Seq::empty()
    } else {
        let rest = funcs_from(kind, file, ls, k + 1);
        match line_decl(kind, ls[k]) {
            Some(name) => seq![func_record(kind, file, ls, k, name)] + rest,
            None => rest,
        }
    }
}

/// What the extractor returns for a file's content and extension.
pub open spec fn spec_extract_functions(
    file: Seq<char>,
    content: Seq<char>,
    extension: Seq<char>,
) -> Seq<FuncModel> {
    funcs_from(spec_extract_kind(extension), file, spec_lines(content), 0)
}

/// Number of lines from `k` on that carry a declaration.
pub open spec fn decl_count(kind: ExtractKind, ls: Seq<Seq<char>>, k: int) -> int
    decreases ls.len() - k,
{
    if k < 0 || k >= ls.len() {
        0
    } else {
        (if line_decl(kind, ls[k]) is Some {
            1int
        } else {
            0int
        }) + decl_count(kind, ls, k + 1)
    }
}

fn extract_kind_x(extension: &str) -> (r: ExtractKind)
    ensures
        r == spec_extract_kind(extension@),
{
    if str_eq(extension, "js") || str_eq(extension, "jsx") || str_eq(extension, "ts") || str_eq(
        extension,
        "tsx",
    ) {
        ExtractKind::BraceDecl
    } else if str_eq(extension, "py") {
        ExtractKind::IndentDecl
    } else if str_eq(extension, "rs") {
        ExtractKind::FnDecl
    } else {
        ExtractKind::NoExtract
    }
}

/// Extract approximate function records from `content`.  One record is
/// produced for every line on which the family's declaration pattern
/// matches; its span is computed by brace counting or indentation
/// tracking, with the runaway-scan cap and fallbacks of `brace_scan` and
/// `indent_scan`.
pub fn extract_functions(file: &str, content: &str, extension: &str) -> (r: Vec<Function>)
    ensures
        funcs_view(r@) == spec_extract_functions(file@, content@, extension@),
        content@.len() == 0 ==> r@.len() == 0,
{
    let kind = extract_kind_x(extension);
    let chars = str_to_chars(content);
    let lines = split_lines(&chars);
    let ghost lv = spec_lines(content@);
    let mut out: Vec<Function> = Vec::new();
    let mut k: usize = 0;
    proof {
        assert(funcs_view(out@) + funcs_from(kind, file@, lv, 0) =~= funcs_from(
            kind,
            file@,
            lv,
            0,
        ));
    }
    loop
        invariant
            k <= lines.len(),
            kind == spec_extract_kind(extension@),
            lv == spec_lines(content@),
            lines_view(lines@) == lv,
            lines.len() == lv.len(),
            funcs_from(kind, file@, lv, 0) =~= funcs_view(out@) + funcs_from(
                kind,
                file@,
                lv,
                k as int,
            ),
        decreases lines.len() - k,
    {
        if k == lines.len() {
            proof {
                assert(funcs_from(kind, file@, lv, k as int).len() == 0);
                assert(funcs_view(out@) =~= funcs_view(out@) + funcs_from(
                    kind,
                    file@,
                    lv,
                    k as int,
                ));
                if content@.len() == 0 {
                    assert(spec_lines(content@).len() == 0);
                }
            }
            return out;
        }
        let line = &lines[k];
        assert(line@ == lv[k as int]);
        let name_cap: Option<Vec<char>> = match kind {
            ExtractKind::BraceDecl => js_func_scan(line),
            ExtractKind::IndentDecl => {
                let t = trim_vec(line);
                py_func_match(&t)
            },
            ExtractKind::FnDecl => rust_func_scan(line),
            ExtractKind::NoExtract => None,
        };
        match name_cap {
            Some(name) => {
                assert(line_decl(kind, lv[k as int]) == Some(name@));
                let e: usize = if let ExtractKind::IndentDecl = kind {
                    indent_end_x(&lines, k)
                } else {
                    brace_end_x(&lines, k)
                };
                assert(e as int == body_end(kind, lv, k as int));
                let body = join_range_x(&lines, k, e);
                let signature = trim_vec(line);
                let rec = Function {
                    file: String::from_str(file),
                    name: chars_to_string(&name),
                    signature: chars_to_string(&signature),
                    line_start: k + 1,
                    line_end: e + 1,
                    content: chars_to_string(&body),
                };
                let ghost pre = funcs_view(out@);
                out.push(rec);
                proof {
                    assert(funcs_view(out@) =~= pre.push(
                        func_record(kind, file@, lv, k as int, name@),
                    ));
                    assert(funcs_view(out@) =~= pre + seq![
                        func_record(kind, file@, lv, k as int, name@),
                    ]);
                }
            },
            None => {
                assert(line_decl(kind, lv[k as int]) is None);
            },
        }
        proof {
            assert(funcs_from(kind, file@, lv, 0) =~= funcs_view(out@) + funcs_from(
                kind,
                file@,
                lv,
                k as int + 1,
            ));
        }
        k += 1;
    }
}

// ---------------------------------------------------------------------------
// Annotation extraction
// ---------------------------------------------------------------------------

/// All annotations from line `k` (0-based) on; line numbers are 1-based,
/// the context is the trimmed source line.
pub open spec fn todos_from(file: Seq<char>, ls: Seq<Seq<char>>, k: int) -> Seq<TodoModel>
    decreases ls.len() - k,
{
    if k < 0 || k >= ls.len() {
        Seq::empty()
    } else {
        let rest = todos_from(file, ls, k + 1);
        match todo_search(ls[k], 0) {
            Some(c) => seq![
                TodoModel {
                    file,
                    todo_type: marker_text(c.0),
                    message: c.1,
                    line_number: k + 1,
                    context: spec_trim(ls[k]),
                },
            ] + rest,
            None => rest,
        }
    }
}

pub open spec fn spec_extract_todos(file: Seq<char>, content: Seq<char>) -> Seq<TodoModel> {
    todos_from(file, spec_lines(content), 0)
}

/// Extract annotation comments: a comment opener followed by one of the
/// marker keywords, with the text after the marker as message.  One item is
/// produced per matching line, whatever the file's language.
pub fn extract_todos(file: &str, content: &str) -> (r: Vec<TodoItem>)
    ensures
        todos_view(r@) == spec_extract_todos(file@, content@),
        content@.len() == 0 ==> r@.len() == 0,
{
    let chars = str_to_chars(content);
    let lines = split_lines(&chars);
    let ghost lv = spec_lines(content@);
    let mut out: Vec<TodoItem> = Vec::new();
    let mut k: usize = 0;
    proof {
        assert(todos_view(out@) + todos_from(file@, lv, 0) =~= todos_from(file@, lv, 0));
    }
    loop
        invariant
            k <= lines.len(),
            lv == spec_lines(content@),
            lines_view(lines@) == lv,
            lines.len() == lv.len(),
            todos_from(file@, lv, 0) =~= todos_view(out@) + todos_from(file@, lv, k as int),
        decreases lines.len() - k,
    {
        if k == lines.len() {
            proof {
                assert(todos_from(file@, lv, k as int).len() == 0);
                assert(todos_view(out@) =~= todos_view(out@) + todos_from(file@, lv, k as int));
                if content@.len() == 0 {
                    assert(spec_lines(content@).len() == 0);
                }
            }
            return out;
        }
        let line = &lines[k];
        assert(line@ == lv[k as int]);
        match todo_scan(line) {
            Some(c) => {
                let context = trim_vec(line);
                let item = TodoItem {
                    file: String::from_str(file),
                    todo_type: marker_string(c.0),
                    message: chars_to_string(&c.1),
                    line_number: k + 1,
                    context: chars_to_string(&context),
                };
                let ghost pre = todos_view(out@);
                out.push(item);
                proof {
                    assert(todos_view(out@) =~= pre.push(item@));
                    assert(todos_view(out@) =~= pre + seq![item@]);
                }
            },
            None => {
                assert(todo_search(lv[k as int], 0) is None);
            },
        }
        proof {
            assert(todos_from(file@, lv, 0) =~= todos_view(out@) + todos_from(
                file@,
                lv,
                k as int + 1,
            ));
        }
        k += 1;
    }
}

/// A record spans a line range inside the file, its content is exactly the
/// joined text of that range, and it names the file it came from.
pub open spec fn wf_func_record(r: FuncModel, file: Seq<char>, ls: Seq<Seq<char>>) -> bool {
    &&& 1 <= r.line_start <= r.line_end <= ls.len()
    &&& r.content == join_range(ls, r.line_start - 1, r.line_end - 1)
    &&& r.file == file
}

/// Well-formedness of every record the extractor can return: one record
/// per matching declaration line, each spanning a line range inside the
/// file whose joined text is exactly the record's content.
pub proof fn lemma_function_records_shape(
    kind: ExtractKind,
    file: Seq<char>,
    ls: Seq<Seq<char>>,
    k: int,
)
    requires
        0 <= k,
    ensures
        funcs_from(kind, file, ls, k).len() == decl_count(kind, ls, k),
        forall|i: int|
            0 <= i < funcs_from(kind, file, ls, k).len() ==> wf_func_record(
                #[trigger] funcs_from(kind, file, ls, k)[i],
                file,
                ls,
            ),
    decreases ls.len() - k,
{
    if 0 <= k && k < ls.len() {
        lemma_function_records_shape(kind, file, ls, k + 1);
        match line_decl(kind, ls[k]) {
            Some(name) => {
                if kind == ExtractKind::IndentDecl {
                    lemma_indent_scan_range(ls, lead_ws(ls[k]), k + 1);
                } else {
                    lemma_brace_scan_range(ls, k, k + 1, brace_delta(ls[k]));
                }
                let r0 = func_record(kind, file, ls, k, name);
                assert(wf_func_record(r0, file, ls));
                let whole = funcs_from(kind, file, ls, k);
                let rest = funcs_from(kind, file, ls, k + 1);
                assert(whole =~= seq![r0] + rest);
                assert forall|i: int| 0 <= i < whole.len() implies wf_func_record(
                    #[trigger] whole[i],
                    file,
                    ls,
                ) by {
                    if i > 0 {
                        assert(whole[i] == rest[i - 1]);
                        assert(wf_func_record(rest[i - 1], file, ls));
                    }
                }
            },
            None => {},
        }
    }
}

} // verus!
