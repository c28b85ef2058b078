//! The ignore engine: an ordered ruleset, loaded from line-oriented rule text,
//! that classifies each source path as fully reported, fully suppressed, or
//! partially suppressed by structural syntax-tree queries.

use vstd::prelude::*;

use crate::coverage::Trace;
use crate::coverage::TraceData;
use crate::line_slice::is_blank;

verus! {

// ---------------------------------------------------------------------------
// Trusted boundary to the glob and tree-sitter crates.
// ---------------------------------------------------------------------------

/// Whether `pattern` is UTF-8 text that compiles as a glob pattern.
pub uninterp spec fn glob_valid(pattern: Seq<u8>) -> bool;

/// Whether a compiled glob `pattern` matches `path` under case-sensitive
/// matching with literal path separators and literal leading dots.
pub uninterp spec fn glob_match(pattern: Seq<u8>, path: Seq<u8>) -> bool;

/// Whether `query` is UTF-8 text that compiles as a structural query against
/// the Rust grammar.
pub uninterp spec fn query_valid(query: Seq<u8>) -> bool;

/// Whether `content` parses into a syntax tree under the Rust grammar.
pub uninterp spec fn tree_parses(content: Seq<u8>) -> bool;

/// The (start row, end row) pairs of the syntax-tree nodes that `query`
/// captures on the parse tree of `content`, in capture order.
pub uninterp spec fn query_capture_rows(content: Seq<u8>, query: Seq<u8>) -> Seq<(usize, usize)>;

/// Relies on glob::Pattern::new: whether a pattern compiles depends on the
/// pattern text alone; bytes that are not UTF-8 compile as nothing.
#[verifier::external_body]
fn glob_pattern_ok(pattern: &[u8]) -> (r: bool)
    ensures
        r == glob_valid(pattern@),
{
    match core::str::from_utf8(pattern) {
        Ok(text) => glob::Pattern::new(text).is_ok(),
        Err(_) => false,
    }
}

/// Relies on glob::Pattern::matches_path_with, with options fixed to
/// case-sensitive matching, literal path separators and literal leading dots:
/// the outcome depends on the pattern and path texts alone, and a path that is
/// not UTF-8 matches nothing.
#[verifier::external_body]
fn glob_pattern_matches(pattern: &[u8], path: &[u8]) -> (r: bool)
    requires
        glob_valid(pattern@),
    ensures
        r == glob_match(pattern@, path@),
{
    let compiled = glob::Pattern::new(core::str::from_utf8(pattern).unwrap()).unwrap();
    let opts = glob::MatchOptions {
        case_sensitive: true,
        require_literal_separator: true,
        require_literal_leading_dot: true,
    };
    match core::str::from_utf8(path) {
        Ok(text) => compiled.matches_path_with(std::path::Path::new(text), opts),
        Err(_) => false,
    }
}

/// Relies on tree_sitter::Query::new for the Rust grammar: whether a query
/// compiles depends on the query text alone; bytes that are not UTF-8 compile
/// as nothing.
#[verifier::external_body]
fn ts_query_ok(query: &[u8]) -> (r: bool)
    ensures
        r == query_valid(query@),
{
    match core::str::from_utf8(query) {
        Ok(text) => tree_sitter::Query::new(tree_sitter_rust::language(), text).is_ok(),
        Err(_) => false,
    }
}

/// Relies on tree_sitter::Parser::parse and tree_sitter::QueryCursor::captures
/// for the Rust grammar: whether `content` parses depends on the content
/// alone, and on success the (start row, end row) pairs of the captured nodes
/// are a function of content and query text, listed in capture order.
#[verifier::external_body]
fn ts_capture_rows(content: &[u8], query: &[u8]) -> (r: Option<Vec<(usize, usize)>>)
    requires
        query_valid(query@),
    ensures
        r is Some <==> tree_parses(content@),
        r is Some ==> r.unwrap()@ == query_capture_rows(content@, query@),
{
    let mut parser = tree_sitter::Parser::new();
    parser.set_language(tree_sitter_rust::language()).ok()?;
    let tree = parser.parse(content, None)?;
    let text = core::str::from_utf8(query).unwrap();
    let compiled = tree_sitter::Query::new(tree_sitter_rust::language(), text).unwrap();
    let mut cursor = tree_sitter::QueryCursor::new();
    let mut rows: Vec<(usize, usize)> = Vec::new();
    for (m, _) in cursor.captures(&compiled, tree.root_node(), content) {
        for c in m.captures {
            rows.push((c.node.start_position().row, c.node.end_position().row));
        }
    }
    Some(rows)
}

// ---------------------------------------------------------------------------
// Rules and their classification of paths.
// ---------------------------------------------------------------------------

/// The view of one ignore rule: its glob pattern and structural queries.
pub struct RuleData {
    pub pattern: Seq<u8>,
    pub queries: Seq<Seq<u8>>,
}

/// One ignore rule: a path glob plus zero or more structural queries.
#[derive(Debug)]
pub struct Rule {
    pattern: Vec<u8>,
    queries: Vec<Vec<u8>>,
}

impl Rule {
    #[verifier::type_invariant]
    spec fn inv(self) -> bool {
        &&& glob_valid(self.pattern@)
        &&& forall|i: int|
            0 <= i < self.queries.deep_view().len() ==> query_valid(
                #[trigger] self.queries.deep_view()[i],
            )
    }
}

impl View for Rule {
    type V = RuleData;

    closed spec fn view(&self) -> RuleData {
        RuleData { pattern: self.pattern@, queries: self.queries.deep_view() }
    }
}

impl DeepView for Rule {
    type V = RuleData;

    open spec fn deep_view(&self) -> RuleData {
        self.view()
    }
}

/// Evaluation outcome for one path, at the specification level.
pub enum Classification {
    Ignored,
    Applied,
    Partially(Seq<Seq<u8>>),
}

/// The classification a rule gives a path its pattern matches: blanket
/// suppression without queries, partial suppression with them.
pub open spec fn rule_class(r: RuleData) -> Classification {
    if r.queries.len() == 0 {
        Classification::Ignored
    } else {
        Classification::Partially(r.queries)
    }
}

/// First-match classification of `path` under `rules`; a path no rule matches
/// is fully reported.
pub open spec fn classify(rules: Seq<RuleData>, path: Seq<u8>) -> Classification
    decreases rules.len(),
{
    if rules.len() == 0 {
        Classification::Applied
    } else if glob_match(rules[0].pattern, path) {
        rule_class(rules[0])
    } else {
        classify(rules.drop_first(), path)
    }
}

/// The classification of a path is decided by the first rule, in declaration
/// order, whose pattern matches it.
pub proof fn lemma_classify_first_match(rules: Seq<RuleData>, path: Seq<u8>, i: int)
    requires
        0 <= i < rules.len(),
        glob_match(rules[i].pattern, path),
        forall|j: int| 0 <= j < i ==> !glob_match(#[trigger] rules[j].pattern, path),
    ensures
        classify(rules, path) == rule_class(rules[i]),
    decreases i,
{
    if i > 0 {
        lemma_classify_first_match(rules.drop_first(), path, i - 1);
    }
}

/// A path whose every rule pattern fails to match is fully reported.
pub proof fn lemma_classify_no_match(rules: Seq<RuleData>, path: Seq<u8>)
    requires
        forall|j: int| 0 <= j < rules.len() ==> !glob_match(#[trigger] rules[j].pattern, path),
    ensures
        classify(rules, path) == Classification::Applied,
    decreases rules.len(),
{
    if rules.len() > 0 {
        lemma_classify_no_match(rules.drop_first(), path);
    }
}

// ---------------------------------------------------------------------------
// Executable ruleset.
// ---------------------------------------------------------------------------

/// The structural queries carried by a partial classification.
#[derive(Debug)]
pub struct Queries {
    items: Vec<Vec<u8>>,
}

impl Queries {
    #[verifier::type_invariant]
    spec fn inv(self) -> bool {
        &&& self.items.len() >= 1
        &&& forall|i: int|
            0 <= i < self.items.deep_view().len() ==> query_valid(
                #[trigger] self.items.deep_view()[i],
            )
    }
}

impl View for Queries {
    type V = Seq<Seq<u8>>;

    closed spec fn view(&self) -> Seq<Seq<u8>> {
        self.items.deep_view()
    }
}

/// Evaluation outcome for one path: suppress its traces entirely, report them
/// fully, or suppress only those inside regions the queries capture.
#[derive(Debug)]
pub enum IgnoreResult {
    Ignore,
    Apply,
    Partial(Queries),
}

impl View for IgnoreResult {
    type V = Classification;

    open spec fn view(&self) -> Classification {
        match self {
            IgnoreResult::Ignore => Classification::Ignored,
            IgnoreResult::Apply => Classification::Applied,
            IgnoreResult::Partial(q) => Classification::Partially(q@),
        }
    }
}

/// Copy one byte string.
fn copy_bytes(b: &[u8]) -> (r: Vec<u8>)
    ensures
        r@ == b@,
{
    vstd::slice::slice_to_vec(b)
}

/// Copy a list of byte strings.
fn copy_byte_list(v: &Vec<Vec<u8>>) -> (r: Vec<Vec<u8>>)
    ensures
        r.deep_view() == v.deep_view(),
{
    let mut r: Vec<Vec<u8>> = Vec::new();
    let mut i: usize = 0;
    while i < v.len()
        invariant
            i <= v.len(),
            r.deep_view() =~= v.deep_view().take(i as int),
        decreases v.len() - i,
    {
        let ghost prev = r.deep_view();
        let copied = copy_bytes(v[i].as_slice());
        proof {
            assert(copied.deep_view() =~= v@[i as int].deep_view());
        }
        r.push(copied);
        proof {
            assert(r.deep_view() =~= prev.push(v@[i as int].deep_view()));
            assert(r.deep_view() =~= v.deep_view().take(i as int + 1));
        }
        i = i + 1;
    }
    proof {
        assert(v.deep_view().take(v@.len() as int) =~= v.deep_view());
    }
    r
}

impl Rule {
    /// The classification this rule gives `path`: a path the pattern does not
    /// match is left alone; a matching one is suppressed wholly, or partially
    /// when the rule carries queries.
    pub fn matches(&self, path: &[u8]) -> (r: IgnoreResult)
        ensures
            r@ == (if glob_match(self@.pattern, path@) {
                rule_class(self@)
            } else {
                Classification::Applied
            }),
    {
        proof {
            use_type_invariant(self);
        }
        if glob_pattern_matches(self.pattern.as_slice(), path) {
            if self.queries.len() == 0 {
                IgnoreResult::Ignore
            } else {
                IgnoreResult::Partial(Queries { items: copy_byte_list(&self.queries) })
            }
        } else {
            IgnoreResult::Apply
        }
    }
}

/// An ordered ignore ruleset; the first matching rule decides each path.
#[derive(Debug)]
pub struct Ignore {
    rules: Vec<Rule>,
}

impl View for Ignore {
    type V = Seq<RuleData>;

    closed spec fn view(&self) -> Seq<RuleData> {
        self.rules.deep_view()
    }
}

impl Default for Ignore {
    /// An empty ruleset.
    fn default() -> (r: Self)
        ensures
            r@ == Seq::<RuleData>::empty(),
    {
        Ignore { rules: Vec::new() }
    }
}

impl Ignore {
    /// Classify `path` by its rules, in declaration order; the first rule
    /// whose pattern matches decides.
    pub fn matches(&self, path: &[u8]) -> (r: IgnoreResult)
        ensures
            r@ == classify(self@, path@),
    {
        proof {
            assert(self@.skip(0) =~= self@);
        }
        let mut i: usize = 0;
        while i < self.rules.len()
            invariant
                i <= self.rules.len(),
                classify(self@, path@) == classify(self@.skip(i as int), path@),
            decreases self.rules.len() - i,
        {
            let result = self.rules[i].matches(path);
            proof {
                assert(self@.skip(i as int)[0] == self@[i as int]);
                assert(self@.skip(i as int).drop_first() =~= self@.skip(i as int + 1));
            }
            if !matches!(result, IgnoreResult::Apply) {
                return result;
            }
            i = i + 1;
        }
        IgnoreResult::Apply
    }

    /// Whether the ruleset holds no rules.
    pub fn is_empty(&self) -> (r: bool)
        ensures
            r == (self@.len() == 0),
    {
        self.rules.len() == 0
    }

    /// Append another ruleset after this one, preserving source order.
    pub fn append(&mut self, other: Ignore)
        ensures
            final(self)@ == old(self)@ + other@,
    {
        let mut incoming = other;
        let ghost added = incoming@;
        self.rules.append(&mut incoming.rules);
        proof {
            assert(self@ =~~= old(self)@ + added);
        }
    }
}

// ---------------------------------------------------------------------------
// Parsing rule text.
// ---------------------------------------------------------------------------

/// `s` with its leading whitespace removed.
pub open spec fn trim_front(s: Seq<u8>) -> Seq<u8>
    decreases s.len(),
{
    if s.len() > 0 && is_blank(s[0]) {
        trim_front(s.drop_first())
    } else {
        s
    }
}

/// `s` with its trailing whitespace removed.
pub open spec fn trim_back(s: Seq<u8>) -> Seq<u8>
    decreases s.len(),
{
    if s.len() > 0 && is_blank(s.last()) {
        trim_back(s.drop_last())
    } else {
        s
    }
}

/// `s` with its surrounding whitespace removed.
pub open spec fn trim(s: Seq<u8>) -> Seq<u8> {
    trim_back(trim_front(s))
}

/// The lines of `s`, split on newline bytes; the text after the last newline
/// is the final line, so every buffer has at least one (possibly empty) line.
pub open spec fn split_lines(s: Seq<u8>) -> Seq<Seq<u8>>
    decreases s.len(),
{
    if s.len() == 0 {
        seq![Seq::empty()]
    } else if s.last() == 10 {
        split_lines(s.drop_last()).push(Seq::empty())
    } else {
        let prev = split_lines(s.drop_last());
        prev.update(prev.len() - 1, prev.last().push(s.last()))
    }
}

proof fn lemma_split_lines_nonempty(s: Seq<u8>)
    ensures
        split_lines(s).len() >= 1,
    decreases s.len(),
{
    if s.len() > 0 {
        lemma_split_lines_nonempty(s.drop_last());
    }
}

/// How one line of rule text is read: a comment, a blank line, an indented
/// structural query, or a new rule's glob pattern.
pub enum LineKind {
    Comment,
    Blank,
    QueryLine(Seq<u8>),
    PatternLine(Seq<u8>),
}

pub open spec fn line_kind(line: Seq<u8>) -> LineKind {
    if line.len() > 0 && line[0] == 35 {
        LineKind::Comment
    } else if trim(line).len() == 0 {
        LineKind::Blank
    } else if line[0] == 32 || line[0] == 9 {
        LineKind::QueryLine(trim(line))
    } else {
        LineKind::PatternLine(trim(line))
    }
}

/// The result of reading rule text: the rules, or the first failure.
pub enum ParseOutcome {
    Parsed(Seq<RuleData>),
    BadPattern,
    BadQuery,
}

/// One line folded into the rules read so far: a pattern line opens a rule, a
/// query line extends the most recent rule (and is dropped when none exists),
/// comments and blanks are skipped; an invalid pattern or query fails.
pub open spec fn apply_line_spec(rules: Seq<RuleData>, line: Seq<u8>) -> ParseOutcome {
    match line_kind(line) {
        LineKind::Comment => ParseOutcome::Parsed(rules),
        LineKind::Blank => ParseOutcome::Parsed(rules),
        LineKind::PatternLine(p) => if glob_valid(p) {
            ParseOutcome::Parsed(rules.push(RuleData { pattern: p, queries: Seq::empty() }))
        } else {
            ParseOutcome::BadPattern
        },
        LineKind::QueryLine(q) => if rules.len() == 0 {
            ParseOutcome::Parsed(rules)
        } else if query_valid(q) {
            let last = rules[rules.len() - 1];
            ParseOutcome::Parsed(
                rules.update(
                    rules.len() - 1,
                    RuleData { pattern: last.pattern, queries: last.queries.push(q) },
                ),
            )
        } else {
            ParseOutcome::BadQuery
        },
    }
}

/// The rules that a list of lines declares, or its first failure.
pub open spec fn parse_lines(lines: Seq<Seq<u8>>) -> ParseOutcome
    decreases lines.len(),
{
    if lines.len() == 0 {
        ParseOutcome::Parsed(Seq::empty())
    } else {
        match parse_lines(lines.drop_last()) {
            ParseOutcome::Parsed(rules) => apply_line_spec(rules, lines.last()),
            ParseOutcome::BadPattern => ParseOutcome::BadPattern,
            ParseOutcome::BadQuery => ParseOutcome::BadQuery,
        }
    }
}

/// Once the lines before the current one fail to parse, no later byte of the
/// buffer can change the outcome.
proof fn lemma_parse_error_persists(s: Seq<u8>, j: int)
    requires
        1 <= j <= s.len(),
        !(parse_lines(split_lines(s.take(j)).drop_last()) is Parsed),
    ensures
        parse_lines(split_lines(s)) == parse_lines(split_lines(s.take(j)).drop_last()),
    decreases s.len() - j,
{
    lemma_split_lines_nonempty(s.take(j));
    if j == s.len() {
        assert(s.take(j) =~= s);
    } else {
        assert(s.take(j + 1).drop_last() =~= s.take(j));
        lemma_split_lines_nonempty(s.take(j + 1));
        if s[j] == 10 {
            assert(split_lines(s.take(j + 1)).drop_last() =~= split_lines(s.take(j)));
        } else {
            assert(split_lines(s.take(j + 1)).drop_last() =~= split_lines(s.take(j)).drop_last());
        }
        lemma_parse_error_persists(s, j + 1);
    }
}

/// An error in rule text.
#[derive(Debug, PartialEq, Eq, Structural, Clone, Copy)]
pub enum IgnoreError {
    InvalidPattern,
    InvalidQuery,
}

/// Whether `b` is space, tab or carriage return.
fn blank_byte(b: u8) -> (r: bool)
    ensures
        r == is_blank(b),
{
    b == 32 || b == 9 || b == 13
}

proof fn lemma_trim_front_is_subrange(s: Seq<u8>, k: int)
    requires
        0 <= k <= s.len(),
        forall|j: int| 0 <= j < k ==> is_blank(#[trigger] s[j]),
        k < s.len() ==> !is_blank(s[k]),
    ensures
        trim_front(s) == s.subrange(k, s.len() as int),
    decreases k,
{
    if k == 0 {
        assert(s.subrange(0, s.len() as int) =~= s);
    } else {
        lemma_trim_front_is_subrange(s.drop_first(), k - 1);
        assert(s.drop_first().subrange(k - 1, s.len() - 1) =~= s.subrange(k, s.len() as int));
    }
}

proof fn lemma_trim_back_is_subrange(s: Seq<u8>, h: int)
    requires
        0 <= h <= s.len(),
        forall|j: int| h <= j < s.len() ==> is_blank(#[trigger] s[j]),
        h > 0 ==> !is_blank(s[h - 1]),
    ensures
        trim_back(s) == s.subrange(0, h),
    decreases s.len(),
{
    if h == s.len() {
        assert(s.subrange(0, h) =~= s);
    } else {
        lemma_trim_back_is_subrange(s.drop_last(), h);
        assert(s.drop_last().subrange(0, h) =~= s.subrange(0, h));
    }
}

/// Trim the surrounding whitespace from one line of rule text.
fn trim_bytes(line: &[u8]) -> (r: Vec<u8>)
    ensures
        r@ == trim(line@),
{
    let n: usize = line.len();
    let mut lo: usize = 0;
    while lo < n && blank_byte(line[lo])
        invariant
            n == line@.len(),
            lo <= n,
            forall|j: int| 0 <= j < lo ==> is_blank(#[trigger] line@[j]),
        decreases n - lo,
    {
        lo = lo + 1;
    }
    let mut hi: usize = n;
    while hi > lo && blank_byte(line[hi - 1])
        invariant
            n == line@.len(),
            lo <= hi <= n,
            forall|j: int| hi <= j < n ==> is_blank(#[trigger] line@[j]),
        decreases hi,
    {
        hi = hi - 1;
    }
    proof {
        lemma_trim_front_is_subrange(line@, lo as int);
        let t = line@.subrange(lo as int, n as int);
        lemma_trim_back_is_subrange(t, hi - lo);
        assert(t.subrange(0, hi - lo) =~= line@.subrange(lo as int, hi as int));
    }
    let piece = vstd::slice::slice_subrange(line, lo, hi);
    vstd::slice::slice_to_vec(piece)
}

/// Fold one completed line of rule text into the rules read so far.
fn apply_line(rules: &mut Vec<Rule>, line: &Vec<u8>) -> (r: Result<(), IgnoreError>)
    ensures
        (match r {
            Ok(_) => apply_line_spec(old(rules).deep_view(), line@) == ParseOutcome::Parsed(
                final(rules).deep_view(),
            ),
            Err(IgnoreError::InvalidPattern) => apply_line_spec(old(rules).deep_view(), line@)
                == ParseOutcome::BadPattern && final(rules).deep_view() == old(rules).deep_view(),
            Err(IgnoreError::InvalidQuery) => apply_line_spec(old(rules).deep_view(), line@)
                == ParseOutcome::BadQuery && final(rules).deep_view() == old(rules).deep_view(),
        }),
{
    if line.len() > 0 && line[0] == 35 {
        return Ok(());
    }
    let trimmed = trim_bytes(line.as_slice());
    if trimmed.len() == 0 {
        return Ok(());
    }
    if line[0] == 32 || line[0] == 9 {
        if rules.len() == 0 {
            return Ok(());
        }
        if ts_query_ok(trimmed.as_slice()) {
            let ghost prev = rules.deep_view();
            let last = match rules.pop() {
                Some(rule) => rule,
                None => {
                    return Ok(());
                },
            };
            proof {
                use_type_invariant(&last);
            }
            let Rule { pattern, queries } = last;
            let mut queries = queries;
            let ghost prevq = queries.deep_view();
            queries.push(trimmed);
            proof {
                assert(queries.deep_view() =~~= prevq.push(trim(line@)));
            }
            rules.push(Rule { pattern, queries });
            proof {
                assert(rules.deep_view() =~= prev.update(
                    prev.len() - 1,
                    RuleData {
                        pattern: prev[prev.len() - 1].pattern,
                        queries: prev[prev.len() - 1].queries.push(trim(line@)),
                    },
                ));
            }
            Ok(())
        } else {
            Err(IgnoreError::InvalidQuery)
        }
    } else {
        if glob_pattern_ok(trimmed.as_slice()) {
            let ghost prev = rules.deep_view();
            let no_queries: Vec<Vec<u8>> = Vec::new();
            proof {
                assert(no_queries.deep_view() =~= Seq::<Seq<u8>>::empty());
            }
            rules.push(Rule { pattern: trimmed, queries: no_queries });
            proof {
                assert(rules.deep_view() =~= prev.push(
                    RuleData { pattern: trim(line@), queries: Seq::empty() },
                ));
            }
            Ok(())
        } else {
            Err(IgnoreError::InvalidPattern)
        }
    }
}

impl Ignore {
    /// Read a ruleset from rule-file text: one glob pattern per non-indented
    /// line, indented lines attaching structural queries to the rule above,
    /// comments and blanks skipped.
    pub fn parse(content: &[u8]) -> (r: Result<Ignore, IgnoreError>)
        ensures
            (match r {
                Ok(ig) => parse_lines(split_lines(content@)) == ParseOutcome::Parsed(ig@),
                Err(IgnoreError::InvalidPattern) => parse_lines(split_lines(content@))
                    == ParseOutcome::BadPattern,
                Err(IgnoreError::InvalidQuery) => parse_lines(split_lines(content@))
                    == ParseOutcome::BadQuery,
            }),
    {
        let n: usize = content.len();
        let mut rules: Vec<Rule> = Vec::new();
        let mut cur: Vec<u8> = Vec::new();
        let ghost mut done: Seq<Seq<u8>> = Seq::empty();
        proof {
            assert(split_lines(content@.take(0)) =~= done.push(cur@));
            assert(rules.deep_view() =~= Seq::<RuleData>::empty());
        }
        let mut i: usize = 0;
        while i < n
            invariant
                n == content@.len(),
                i <= n,
                split_lines(content@.take(i as int)) == done.push(cur@),
                parse_lines(done) == ParseOutcome::Parsed(rules.deep_view()),
            decreases n - i,
        {
            proof {
                assert(content@.take(i as int + 1).drop_last() =~= content@.take(i as int));
                assert(content@.take(i as int + 1)[i as int] == content@[i as int]);
            }
            let b = content[i];
            if b == 10 {
                let ghost finished = cur@;
                match apply_line(&mut rules, &cur) {
                    Ok(_) => {},
                    Err(e) => {
                        proof {
                            assert((done.push(finished)).drop_last() =~= done);
                            assert(split_lines(content@.take(i as int + 1)).drop_last()
                                =~= done.push(finished));
                            lemma_parse_error_persists(content@, i as int + 1);
                        }
                        return Err(e);
                    },
                }
                proof {
                    assert((done.push(finished)).drop_last() =~= done);
                    done = done.push(finished);
                }
                cur = Vec::new();
            } else {
                let ghost before = cur@;
                cur.push(b);
                proof {
                    let prev = done.push(before);
                    assert(prev.update(prev.len() - 1, prev.last().push(b)) =~= done.push(cur@));
                }
            }
            i = i + 1;
        }
        proof {
            assert(content@.take(n as int) =~= content@);
            assert((done.push(cur@)).drop_last() =~= done);
        }
        match apply_line(&mut rules, &cur) {
            Ok(_) => Ok(Ignore { rules }),
            Err(e) => Err(e),
        }
    }
}

// ---------------------------------------------------------------------------
// Filtering a trace list by a classification.
// ---------------------------------------------------------------------------

/// Whether `line` falls inside any captured row range, both ends inclusive.
pub open spec fn row_covered(line: u32, rows: Seq<(usize, usize)>) -> bool {
    exists|i: int|
        0 <= i < rows.len() && (#[trigger] rows[i]).0 <= line as usize && line as usize <= rows[
            i
        ].1
}

/// The row ranges captured by the first `upto` queries, concatenated in query
/// order.
pub open spec fn rows_upto(content: Seq<u8>, queries: Seq<Seq<u8>>, upto: int) -> Seq<
    (usize, usize),
>
    decreases upto,
{
    if upto <= 0 {
        Seq::empty()
    } else {
        rows_upto(content, queries, upto - 1) + query_capture_rows(content, queries[upto - 1])
    }
}

/// The row ranges captured by every query against `content`'s parse tree.
pub open spec fn all_capture_rows(content: Seq<u8>, queries: Seq<Seq<u8>>) -> Seq<(usize, usize)> {
    rows_upto(content, queries, queries.len() as int)
}

/// The traces that survive partial suppression: those whose line no captured
/// range covers, in their original order.
pub open spec fn surviving_traces(ts: Seq<TraceData>, rows: Seq<(usize, usize)>) -> Seq<TraceData>
    decreases ts.len(),
{
    if ts.len() == 0 {
        Seq::empty()
    } else {
        let rest = surviving_traces(ts.drop_last(), rows);
        if row_covered(ts.last().line, rows) {
            rest
        } else {
            rest.push(ts.last())
        }
    }
}

/// What filtering leaves of `ts` under classification `c`.
pub open spec fn filtered_traces(c: Classification, content: Seq<u8>, ts: Seq<TraceData>) -> Seq<
    TraceData,
> {
    match c {
        Classification::Ignored => Seq::empty(),
        Classification::Applied => ts,
        Classification::Partially(qs) => surviving_traces(ts, all_capture_rows(content, qs)),
    }
}

/// Every survivor of partial suppression lies outside every captured range,
/// and a trace survives exactly when its line is outside them all.
pub proof fn lemma_surviving_traces(ts: Seq<TraceData>, rows: Seq<(usize, usize)>)
    ensures
        forall|i: int|
            0 <= i < surviving_traces(ts, rows).len() ==> !row_covered(
                (#[trigger] surviving_traces(ts, rows)[i]).line,
                rows,
            ),
        forall|t: TraceData|
            #[trigger] surviving_traces(ts, rows).contains(t) <==> ts.contains(t) && !row_covered(
                t.line,
                rows,
            ),
    decreases ts.len(),
{
    let s = surviving_traces(ts, rows);
    if ts.len() == 0 {
        assert(forall|t: TraceData| !ts.contains(t));
        assert(forall|t: TraceData| !s.contains(t));
    } else {
        lemma_surviving_traces(ts.drop_last(), rows);
        let rest = surviving_traces(ts.drop_last(), rows);
        assert forall|t: TraceData| #[trigger] s.contains(t) implies ts.contains(t)
            && !row_covered(t.line, rows) by {
            let i = choose|i: int| 0 <= i < s.len() && s[i] == t;
            if i < rest.len() {
                assert(rest.contains(t));
                let j = choose|j: int| 0 <= j < ts.drop_last().len() && ts.drop_last()[j] == t;
                assert(ts[j] == t);
            } else {
                assert(t == ts.last());
                assert(ts[ts.len() - 1] == t);
            }
        }
        assert forall|t: TraceData| ts.contains(t) && !row_covered(t.line, rows) implies #[trigger]
        s.contains(t) by {
            let j = choose|j: int| 0 <= j < ts.len() && ts[j] == t;
            if j < ts.len() - 1 {
                assert(ts.drop_last()[j] == t);
                assert(ts.drop_last().contains(t));
                assert(rest.contains(t));
                let i = choose|i: int| 0 <= i < rest.len() && rest[i] == t;
                assert(s[i] == t);
            } else {
                assert(t == ts.last());
                assert(s[s.len() - 1] == t);
            }
        }
    }
}

/// Partial suppression is `Seq::filter` by line coverage: the survivors keep
/// their relative order.
pub proof fn lemma_surviving_traces_is_filter(ts: Seq<TraceData>, rows: Seq<(usize, usize)>)
    ensures
        surviving_traces(ts, rows) == ts.filter(|t: TraceData| !row_covered(t.line, rows)),
    decreases ts.len(),
{
    reveal(Seq::filter);
    if ts.len() > 0 {
        lemma_surviving_traces_is_filter(ts.drop_last(), rows);
    }
}

/// Failure to filter a file's traces: its content would not parse.
#[derive(Debug, PartialEq, Eq, Structural, Clone, Copy)]
pub enum FilterError {
    Parse,
}

/// Whether `line` falls inside any of `rows`, both ends inclusive.
fn line_hits_rows(line: u32, rows: &Vec<(usize, usize)>) -> (r: bool)
    ensures
        r == row_covered(line, rows@),
{
    let target = line as usize;
    let mut i: usize = 0;
    while i < rows.len()
        invariant
            i <= rows.len(),
            target == line as usize,
            forall|j: int|
                0 <= j < i ==> !((#[trigger] rows@[j]).0 <= line as usize && line as usize
                    <= rows@[j].1),
        decreases rows.len() - i,
    {
        if rows[i].0 <= target && target <= rows[i].1 {
            proof {
                assert(rows@[i as int].0 <= line as usize && line as usize <= rows@[i as int].1);
            }
            return true;
        }
        i = i + 1;
    }
    false
}

/// Copy a trace list.
fn copy_traces(v: &Vec<Trace>) -> (r: Vec<Trace>)
    ensures
        r.deep_view() == v.deep_view(),
{
    let mut r: Vec<Trace> = Vec::new();
    let mut i: usize = 0;
    while i < v.len()
        invariant
            i <= v.len(),
            r.deep_view() =~= v.deep_view().take(i as int),
        decreases v.len() - i,
    {
        let ghost prev = r.deep_view();
        let copied = v[i].duplicate();
        r.push(copied);
        proof {
            assert(r.deep_view() =~= prev.push(v.deep_view()[i as int]));
            assert(r.deep_view() =~= v.deep_view().take(i as int + 1));
        }
        i = i + 1;
    }
    proof {
        assert(v.deep_view().take(v@.len() as int) =~= v.deep_view());
    }
    r
}

impl IgnoreResult {
    /// Filter `traces` by this classification: `Ignore` suppresses them all,
    /// `Apply` keeps them all unchanged, and `Partial` keeps exactly those
    /// whose line lies outside every region its queries capture. Partial
    /// filtering fails when `content` does not parse.
    pub fn filter(&self, content: &[u8], traces: &Vec<Trace>) -> (r: Result<Vec<Trace>, FilterError>)
        ensures
            (match r {
                Ok(kept) => kept.deep_view() == filtered_traces(self@, content@, traces.deep_view()),
                Err(e) => e == FilterError::Parse,
            }),
            r is Err <==> self@ is Partially && !tree_parses(content@),
    {
        match self {
            IgnoreResult::Ignore => {
                let kept: Vec<Trace> = Vec::new();
                proof {
                    assert(kept.deep_view() =~= Seq::<TraceData>::empty());
                }
                Ok(kept)
            },
            IgnoreResult::Apply => Ok(copy_traces(traces)),
            IgnoreResult::Partial(queries) => {
                proof {
                    use_type_invariant(queries);
                }
                let items: &Vec<Vec<u8>> = &queries.items;
                let mut rows: Vec<(usize, usize)> = Vec::new();
                let mut qi: usize = 0;
                proof {
                    assert(rows@ =~= rows_upto(content@, queries@, 0));
                }
                while qi < items.len()
                    invariant
                        qi <= items.len(),
                        self@ == Classification::Partially(queries@),
                        queries@ == items.deep_view(),
                        queries.inv(),
                        rows@ == rows_upto(content@, queries@, qi as int),
                        qi > 0 ==> tree_parses(content@),
                    decreases items.len() - qi,
                {
                    proof {
                        assert(items.deep_view()[qi as int] =~= items@[qi as int]@);
                    }
                    match ts_capture_rows(content, items[qi].as_slice()) {
                        None => {
                            return Err(FilterError::Parse);
                        },
                        Some(found) => {
                            let mut found = found;
                            rows.append(&mut found);
                            proof {
                                assert(rows@ =~= rows_upto(content@, queries@, qi as int + 1));
                            }
                        },
                    }
                    qi = qi + 1;
                }
                let mut kept: Vec<Trace> = Vec::new();
                let ghost all_rows = all_capture_rows(content@, queries@);
                proof {
                    assert(rows@ == all_rows);
                    assert(kept.deep_view() =~= surviving_traces(
                        traces.deep_view().take(0),
                        rows@,
                    ));
                }
                let mut ti: usize = 0;
                while ti < traces.len()
                    invariant
                        ti <= traces.len(),
                        self@ == Classification::Partially(queries@),
                        rows@ == all_capture_rows(content@, queries@),
                        tree_parses(content@),
                        kept.deep_view() == surviving_traces(
                            traces.deep_view().take(ti as int),
                            rows@,
                        ),
                    decreases traces.len() - ti,
                {
                    proof {
                        assert(traces.deep_view().take(ti as int + 1).drop_last()
                            =~= traces.deep_view().take(ti as int));
                        assert(traces.deep_view().take(ti as int + 1).last()
                            == traces.deep_view()[ti as int]);
                    }
                    if !line_hits_rows(traces[ti].line, &rows) {
                        kept.push(traces[ti].duplicate());
                        proof {
                            assert(kept.deep_view() =~= surviving_traces(
                                traces.deep_view().take(ti as int + 1),
                                rows@,
                            ));
                        }
                    }
                    ti = ti + 1;
                }
                proof {
                    assert(traces.deep_view().take(traces@.len() as int) =~= traces.deep_view());
                }
                Ok(kept)
            },
        }
    }
}

} // verus!

