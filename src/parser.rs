use vstd::prelude::*;

use crate::text::{char_is_alphanumeric, char_is_whitespace, is_alnum, is_white, push_char, trim, trimmed};

verus! {

/// A syntax or semantic error in the database text, at a character offset.
#[derive(Clone, Debug, PartialEq)]
pub struct ParseError {
    pub offset: usize,
    pub message: String,
}

/// Model of a `ParseError`.
pub struct Failure {
    pub offset: int,
    pub message: Seq<char>,
}

impl View for ParseError {
    type V = Failure;

    open spec fn view(&self) -> Failure {
        Failure { offset: self.offset as int, message: self.message@ }
    }
}

/// A failure with this message at this offset.
pub open spec fn fail(offset: int, message: Seq<char>) -> Failure {
    Failure { offset, message }
}

/// A cursor over the characters of a database text.
#[derive(Clone, Debug, PartialEq, Eq)]
pub struct Parser {
    pub offset: usize,
    pub buffer: Vec<char>,
}

/// One package block of the database.
#[derive(Clone, Debug, PartialEq)]
pub struct PackageDef {
    pub name: String,
    pub version: String,
    pub url: Option<String>,
    pub build: Option<String>,
    /// Queries (`name` or `name@version`) naming the packages this one needs.
    pub depends: Vec<String>,
}

/// Model of a `PackageDef`.
pub struct Definition {
    pub name: Seq<char>,
    pub version: Seq<char>,
    pub url: Option<Seq<char>>,
    pub build: Option<Seq<char>>,
    pub depends: Seq<Seq<char>>,
}

pub open spec fn text_opt(o: Option<String>) -> Option<Seq<char>> {
    match o {
        Some(s) => Some(s@),
        None => None,
    }
}

pub open spec fn texts(v: Seq<String>) -> Seq<Seq<char>> {
    v.map_values(|s: String| s@)
}

impl View for PackageDef {
    type V = Definition;

    open spec fn view(&self) -> Definition {
        Definition {
            name: self.name@,
            version: self.version@,
            url: text_opt(self.url),
            build: text_opt(self.build),
            depends: texts(self.depends@),
        }
    }
}

/// `name@version`, the identity of a definition.
pub open spec fn id_of(name: Seq<char>, version: Seq<char>) -> Seq<char> {
    name + "@"@ + version
}

/// Clones each string of `v`.
fn clone_texts(v: &Vec<String>) -> (r: Vec<String>)
    ensures
        texts(r@) == texts(v@),
{
    let mut r: Vec<String> = Vec::new();
    let mut i: usize = 0;
    while i < v.len()
        invariant
            i <= v.len(),
            r@ == v@.subrange(0, i as int),
        decreases v.len() - i,
    {
        r.push(v[i].clone());
        i = i + 1;
        proof {
            assert(r@ =~= v@.subrange(0, i as int));
        }
    }
    proof {
        assert(v@.subrange(0, v.len() as int) =~= v@);
    }
    r
}

fn clone_opt(o: &Option<String>) -> (r: Option<String>)
    ensures
        text_opt(r) == text_opt(*o),
{
    match o {
        Some(s) => Some(s.clone()),
        None => None,
    }
}

impl PackageDef {
    /// `name@version`.
    pub fn id(&self) -> (r: String)
        ensures
            r@ == id_of(self.name@, self.version@),
    {
        self.name.clone().concat("@").concat(self.version.as_str())
    }

    /// A copy of this definition with the same model.
    pub fn duplicate(&self) -> (r: PackageDef)
        ensures
            r@ == self@,
    {
        PackageDef {
            name: self.name.clone(),
            version: self.version.clone(),
            url: clone_opt(&self.url),
            build: clone_opt(&self.build),
            depends: clone_texts(&self.depends),
        }
    }
}

/// The sample definition `mypackage@0.1.0`, fetched as a `.tar.gz` archive.
pub fn my_package_def() -> (r: PackageDef)
    ensures
        r@.name == "mypackage"@,
        r@.version == "0.1.0"@,
        r@.url == Some("http://localhost:8000/mypackage-0.1.0-x86_64-linux.tar.gz"@),
        r@.build is None,
        r@.depends.len() == 0,
{
    let r = PackageDef {
        name: String::from_str("mypackage"),
        version: String::from_str("0.1.0"),
        url: Some(String::from_str("http://localhost:8000/mypackage-0.1.0-x86_64-linux.tar.gz")),
        build: None,
        depends: Vec::new(),
    };
    r
}

/// The character classes that the grammar scans runs of.
#[derive(Clone, Copy, Debug, PartialEq, Eq, Structural)]
pub enum CharClass {
    /// `' '`
    Space,
    /// any white space
    White,
    /// letters, digits, `_` and `-`
    Name,
    /// letters, digits, `_`, `-` and `.`
    Version,
    /// anything but a newline
    Line,
}

pub open spec fn in_class(k: CharClass, c: char) -> bool {
    match k {
        CharClass::Space => c == ' ',
        CharClass::White => is_white(c),
        CharClass::Name => is_alnum(c) || c == '_' || c == '-',
        CharClass::Version => is_alnum(c) || c == '_' || c == '-' || c == '.',
        CharClass::Line => c != '\n',
    }
}

fn class_has(k: CharClass, c: char) -> (r: bool)
    ensures
        r == in_class(k, c),
{
    match k {
        CharClass::Space => c == ' ',
        CharClass::White => char_is_whitespace(c),
        CharClass::Name => char_is_alphanumeric(c) || c == '_' || c == '-',
        CharClass::Version => char_is_alphanumeric(c) || c == '_' || c == '-' || c == '.',
        CharClass::Line => c != '\n',
    }
}

/// End of the longest run of characters of class `k` that starts at `i`.
pub open spec fn run_end(t: Seq<char>, i: int, k: CharClass) -> int
    decreases t.len() - i,
{
    if 0 <= i < t.len() && in_class(k, t[i]) {
        run_end(t, i + 1, k)
    } else {
        i
    }
}

/// Where skipping blanks, newlines and `#` comments from `i` stops;
/// `in_comment` tells whether `i` lies inside a comment.
pub open spec fn blank_end(t: Seq<char>, i: int, in_comment: bool) -> int
    decreases t.len() - i,
{
    if 0 <= i < t.len() {
        if in_comment {
            blank_end(t, i + 1, t[i] != '\n')
        } else if t[i] == '#' {
            blank_end(t, i + 1, true)
        } else if t[i] == ' ' || t[i] == '\n' {
            blank_end(t, i + 1, false)
        } else {
            i
        }
    } else {
        i
    }
}

pub proof fn lemma_run_end_bounds(t: Seq<char>, i: int, k: CharClass)
    requires
        0 <= i <= t.len(),
    ensures
        i <= run_end(t, i, k) <= t.len(),
        forall|j: int| i <= j < run_end(t, i, k) ==> in_class(k, #[trigger] t[j]),
        run_end(t, i, k) < t.len() ==> !in_class(k, t[run_end(t, i, k)]),
    decreases t.len() - i,
{
    if i < t.len() && in_class(k, t[i]) {
        lemma_run_end_bounds(t, i + 1, k);
    }
}

pub proof fn lemma_blank_end_bounds(t: Seq<char>, i: int, in_comment: bool)
    requires
        0 <= i <= t.len(),
    ensures
        i <= blank_end(t, i, in_comment) <= t.len(),
    decreases t.len() - i,
{
    if i < t.len() {
        if in_comment {
            lemma_blank_end_bounds(t, i + 1, t[i] != '\n');
        } else if t[i] == '#' || t[i] == ' ' || t[i] == '\n' {
            lemma_blank_end_bounds(t, i + 1, t[i] == '#');
        }
    }
}

/// The literal `lit` stands in `t` at `i`.
pub open spec fn literal_at(t: Seq<char>, i: int, lit: Seq<char>) -> bool {
    0 <= i && i + lit.len() <= t.len() && t.subrange(i, i + lit.len()) == lit
}

/// Matching the literal `lit` at `i`: the outcome and the offset after it.
pub open spec fn literal_step(t: Seq<char>, i: int, lit: Seq<char>) -> (Result<(), Failure>, int) {
    if literal_at(t, i, lit) {
        (Ok(()), i + lit.len())
    } else {
        (Err(fail(i, "Expecting "@ + lit)), i)
    }
}

pub open spec fn newline_step(t: Seq<char>, i: int) -> (Result<(), Failure>, int) {
    if literal_at(t, i, seq!['\n']) {
        (Ok(()), i + 1)
    } else {
        (Err(fail(i, "Expecting a newline"@)), i)
    }
}

/// A non-empty run of class `k` at `i`, or `message` at `i`.
pub open spec fn token_step(t: Seq<char>, i: int, k: CharClass, message: Seq<char>) -> (
    Result<Seq<char>, Failure>,
    int,
) {
    let e = run_end(t, i, k);
    if e == i {
        (Err(fail(i, message)), i)
    } else {
        (Ok(t.subrange(i, e)), e)
    }
}

pub open spec fn name_step(t: Seq<char>, i: int) -> (Result<Seq<char>, Failure>, int) {
    token_step(t, i, CharClass::Name, "Expecting a package name"@)
}

pub open spec fn version_step(t: Seq<char>, i: int) -> (Result<Seq<char>, Failure>, int) {
    token_step(t, i, CharClass::Version, "Expecting a package version"@)
}

pub open spec fn command_step(t: Seq<char>, i: int) -> (Result<Seq<char>, Failure>, int) {
    token_step(t, i, CharClass::Line, "Expecting a command"@)
}

/// The rest of the line at `i`, trimmed; the newline that ends it is consumed.
pub open spec fn url_step(t: Seq<char>, i: int) -> (Result<Seq<char>, Failure>, int) {
    let e = run_end(t, i, CharClass::Line);
    let next = if e < t.len() {
        e + 1
    } else {
        e
    };
    if e == i {
        (Err(fail(i, "Expecting an url"@)), next)
    } else {
        (Ok(trimmed(t.subrange(i, e))), next)
    }
}

pub open spec fn res_unit(r: Result<(), ParseError>) -> Result<(), Failure> {
    match r {
        Ok(_) => Ok(()),
        Err(e) => Err(e@),
    }
}

pub open spec fn res_text(r: Result<String, ParseError>) -> Result<Seq<char>, Failure> {
    match r {
        Ok(s) => Ok(s@),
        Err(e) => Err(e@),
    }
}

pub open spec fn res_opt_text(r: Result<Option<String>, ParseError>) -> Result<
    Option<Seq<char>>,
    Failure,
> {
    match r {
        Ok(o) => Ok(text_opt(o)),
        Err(e) => Err(e@),
    }
}


/// The command at `i` and the newline that ends it.
pub open spec fn command_line_step(t: Seq<char>, i: int) -> (Result<Seq<char>, Failure>, int) {
    let (c, j) = command_step(t, i);
    match c {
        Err(f) => (Err(f), j),
        Ok(s) => {
            let (n, k) = newline_step(t, j);
            match n {
                Err(f) => (Err(f), k),
                Ok(_) => (Ok(s), k),
            }
        },
    }
}

/// The indented continuation lines of a build field from `i`, each appended to `acc`
/// with its newline.
pub open spec fn build_lines(t: Seq<char>, i: int, acc: Seq<char>) -> (Result<Seq<char>, Failure>, int)
    decreases t.len() - i,
{
    if 0 <= i < t.len() && t[i] == ' ' {
        let w = run_end(t, i, CharClass::White);
        let (c, k) = command_line_step(t, w);
        match c {
            Err(f) => (Err(f), k),
            Ok(s) => {
                proof {
                    lemma_run_end_bounds(t, i, CharClass::White);
                    lemma_run_end_bounds(t, w, CharClass::Line);
                }
                build_lines(t, k, acc + s + seq!['\n'])
            },
        }
    } else {
        (Ok(acc), i)
    }
}

pub open spec fn as_some(r: (Result<Seq<char>, Failure>, int)) -> (Result<Option<Seq<char>>, Failure>, int) {
    match r.0 {
        Ok(x) => (Ok(Some(x)), r.1),
        Err(f) => (Err(f), r.1),
    }
}

/// An optional `url = <text>` field at `i`.
pub open spec fn url_field_step(t: Seq<char>, i: int) -> (Result<Option<Seq<char>>, Failure>, int) {
    if !literal_at(t, i, "url"@) {
        (Ok(None), i)
    } else {
        let (eq, a) = literal_step(t, run_end(t, i + "url"@.len(), CharClass::Space), "="@);
        match eq {
            Err(f) => (Err(f), a),
            Ok(_) => {
                let (u, b) = url_step(t, run_end(t, a, CharClass::Space));
                match u {
                    Err(f) => (Err(f), b),
                    Ok(s) => (Ok(Some(s)), b),
                }
            },
        }
    }
}

/// An optional `build = <command>` field at `i`, with its continuation lines;
/// its value is the commands, each followed by a newline.
pub open spec fn build_step(t: Seq<char>, i: int) -> (Result<Option<Seq<char>>, Failure>, int) {
    if !literal_at(t, i, "build"@) {
        (Ok(None), i)
    } else {
        let (eq, a) = literal_step(t, run_end(t, i + "build"@.len(), CharClass::Space), "="@);
        match eq {
            Err(f) => (Err(f), a),
            Ok(_) => {
                let (first, b) = command_line_step(t, run_end(t, a, CharClass::Space));
                match first {
                    Err(f) => (Err(f), b),
                    Ok(s) => {
                        as_some(build_lines(t, b, s + seq!['\n']))
                    },
                }
            },
        }
    }
}

/// The rest of a header after its `[`: `name @ version ]` and a newline.
pub open spec fn header_step(t: Seq<char>, i: int) -> (Result<(Seq<char>, Seq<char>), Failure>, int) {
    let (n, a) = name_step(t, i);
    match n {
        Err(f) => (Err(f), a),
        Ok(name) => {
            let (at, b) = literal_step(t, run_end(t, a, CharClass::Space), "@"@);
            match at {
                Err(f) => (Err(f), b),
                Ok(_) => {
                    let (v, c) = version_step(t, run_end(t, b, CharClass::Space));
                    match v {
                        Err(f) => (Err(f), c),
                        Ok(version) => {
                            let (close, d) = literal_step(t, run_end(t, c, CharClass::Space), "]"@);
                            match close {
                                Err(f) => (Err(f), d),
                                Ok(_) => {
                                    let (nl, e) = newline_step(t, d);
                                    match nl {
                                        Err(f) => (Err(f), e),
                                        Ok(_) => (Ok((name, version)), e),
                                    }
                                },
                            }
                        },
                    }
                },
            }
        },
    }
}

pub open spec fn missing_fields_message(name: Seq<char>, version: Seq<char>) -> Seq<char> {
    "The package ["@ + id_of(name, version) + "] must define at least a url or build field"@
}

pub open spec fn duplicate_message(name: Seq<char>, version: Seq<char>) -> Seq<char> {
    "Package ["@ + name + ":"@ + version + "] has already been defined"@
}

/// A package block at `i`: `None` when no `[` stands there.
pub open spec fn package_step(t: Seq<char>, i: int) -> (Result<Option<Definition>, Failure>, int) {
    if !literal_at(t, i, "["@) {
        (Ok(None), i)
    } else {
        let (h, a) = header_step(t, i + "["@.len());
        match h {
            Err(f) => (Err(f), a),
            Ok((name, version)) => {
                let (u, b) = url_field_step(t, blank_end(t, a, false));
                match u {
                    Err(f) => (Err(f), b),
                    Ok(url) => {
                        let (bd, c) = build_step(t, blank_end(t, b, false));
                        match bd {
                            Err(f) => (Err(f), c),
                            Ok(build) => {
                                if url is None && build is None {
                                    (Err(fail(i, missing_fields_message(name, version))), c)
                                } else {
                                    (
                                        Ok(
                                            Some(
                                                Definition {
                                                    name,
                                                    version,
                                                    url,
                                                    build,
                                                    depends: seq![],
                                                },
                                            ),
                                        ),
                                        c,
                                    )
                                }
                            },
                        }
                    },
                }
            },
        }
    }
}

/// Some definition of `defs` is named `name@version`.
pub open spec fn defines(defs: Seq<Definition>, name: Seq<char>, version: Seq<char>) -> bool {
    exists|k: int| 0 <= k < defs.len() && (#[trigger] defs[k]).name == name && defs[k].version == version
}

/// The package blocks from `i` on, after the definitions `defs` already read; text that
/// is neither a block nor blanks and comments after one is an error.
pub open spec fn packages_from(t: Seq<char>, i: int, defs: Seq<Definition>) -> (
    Result<Seq<Definition>, Failure>,
    int,
)
    decreases t.len() - i,
{
    let (p, j) = package_step(t, i);
    match p {
        Err(f) => (Err(f), j),
        Ok(None) => if 0 <= j < t.len() {
            (Err(fail(j, "Expecting "@ + "["@)), j)
        } else {
            (Ok(defs), j)
        },
        Ok(Some(d)) => {
            if defines(defs, d.name, d.version) {
                (Err(fail(i, duplicate_message(d.name, d.version))), j)
            } else {
                proof {
                    if 0 <= i <= t.len() {
                        lemma_package_step_bounds(t, i);
                        lemma_blank_end_bounds(t, j, false);
                    }
                }
                if 0 <= i <= t.len() {
                    packages_from(t, blank_end(t, j, false), defs.push(d))
                } else {
                    (Ok(defs), i)
                }
            }
        },
    }
}

proof fn lemma_packages_from_consumes_all(t: Seq<char>, i: int, defs: Seq<Definition>)
    requires
        0 <= i <= t.len(),
    ensures
        packages_from(t, i, defs).0 is Ok ==> packages_from(t, i, defs).1 == t.len(),
    decreases t.len() - i,
{
    lemma_package_step_bounds(t, i);
    let (p, j) = package_step(t, i);
    if let Ok(Some(d)) = p {
        if !defines(defs, d.name, d.version) {
            lemma_blank_end_bounds(t, j, false);
            lemma_packages_from_consumes_all(t, blank_end(t, j, false), defs.push(d));
        }
    }
}

/// A database that parses is read to its end.
pub proof fn lemma_database_consumes_all(t: Seq<char>, i: int)
    requires
        0 <= i <= t.len(),
    ensures
        database(t, i).0 is Ok ==> database(t, i).1 == t.len(),
{
    lemma_run_end_bounds(t, i, CharClass::White);
    lemma_blank_end_bounds(t, run_end(t, i, CharClass::White), false);
    lemma_packages_from_consumes_all(
        t,
        blank_end(t, run_end(t, i, CharClass::White), false),
        seq![],
    );
}

/// The whole database from `i`: white space and comments, then package blocks.
pub open spec fn database(t: Seq<char>, i: int) -> (Result<Seq<Definition>, Failure>, int) {
    packages_from(t, first_block(t, i), seq![])
}

/// No two definitions of `defs` share a `name@version`.
pub open spec fn distinct_ids(defs: Seq<Definition>) -> bool {
    forall|a: int, b: int|
        0 <= a < b < defs.len() ==> !((#[trigger] defs[a]).name == (#[trigger] defs[b]).name
            && defs[a].version == defs[b].version)
}

/// A block whose `name@version` an earlier block already defined is rejected, with an
/// error at the block's opening `[`.
pub proof fn lemma_duplicate_block_rejected(t: Seq<char>, i: int, defs: Seq<Definition>, d: Definition)
    requires
        package_step(t, i).0 == Ok::<_, Failure>(Some(d)),
        defines(defs, d.name, d.version),
    ensures
        packages_from(t, i, defs).0 == Err::<Seq<Definition>, _>(
            fail(i, duplicate_message(d.name, d.version)),
        ),
{
}

proof fn lemma_packages_from_distinct(t: Seq<char>, i: int, defs: Seq<Definition>)
    requires
        distinct_ids(defs),
    ensures
        packages_from(t, i, defs).0 matches Ok(v) ==> distinct_ids(v),
    decreases t.len() - i,
{
    let (p, j) = package_step(t, i);
    if let Ok(Some(d)) = p {
        if !defines(defs, d.name, d.version) && 0 <= i <= t.len() {
            lemma_package_step_bounds(t, i);
            lemma_blank_end_bounds(t, j, false);
            let next = defs.push(d);
            assert forall|a: int, b: int| 0 <= a < b < next.len() implies !((#[trigger] next[a]).name
                == (#[trigger] next[b]).name && next[a].version == next[b].version) by {
                if b == defs.len() {
                    assert(!(defs[a].name == d.name && defs[a].version == d.version));
                }
            }
            lemma_packages_from_distinct(t, blank_end(t, j, false), next);
        }
    }
}

/// The definitions read from a database are pairwise distinct in `name@version`.
pub proof fn lemma_parsed_ids_distinct(t: Seq<char>, i: int)
    ensures
        database(t, i).0 matches Ok(v) ==> distinct_ids(v),
{
    lemma_packages_from_distinct(t, blank_end(t, run_end(t, i, CharClass::White), false), seq![]);
}

/// A block with neither a `url` nor a `build` field is rejected, with an error at the
/// block's opening `[` whose message names the block's `name@version`.
pub proof fn lemma_block_without_fields_rejected(
    t: Seq<char>,
    i: int,
    name: Seq<char>,
    version: Seq<char>,
    a: int,
)
    requires
        literal_at(t, i, "["@),
        header_step(t, i + 1) == (Ok::<_, Failure>((name, version)), a),
        url_field_step(t, blank_end(t, a, false)).0 == Ok::<_, Failure>(None::<Seq<char>>),
        build_step(t, blank_end(t, url_field_step(t, blank_end(t, a, false)).1, false)).0 == Ok::<
            _,
            Failure,
        >(None::<Seq<char>>),
    ensures
        package_step(t, i).0 == Err::<Option<Definition>, _>(
            fail(i, missing_fields_message(name, version)),
        ),
        missing_fields_message(name, version).subrange(13, 13 + id_of(name, version).len() as int)
            == id_of(name, version),
{
    reveal_strlit("[");
    reveal_strlit("The package [");
    let m = missing_fields_message(name, version);
    assert(m.subrange(13, 13 + id_of(name, version).len() as int) =~= id_of(name, version));
}

/// Where reading `n` blocks from `i`, after the definitions `defs`, leads: the offset of
/// the next block and the definitions read by then; `None` when one of those blocks
/// fails or none is left.
pub open spec fn after_blocks(t: Seq<char>, i: int, defs: Seq<Definition>, n: nat) -> Option<
    (int, Seq<Definition>),
>
    decreases n,
{
    if n == 0 {
        Some((i, defs))
    } else {
        let (p, j) = package_step(t, i);
        match p {
            Ok(Some(d)) => if !defines(defs, d.name, d.version) && 0 <= i <= t.len() {
                after_blocks(t, blank_end(t, j, false), defs.push(d), (n - 1) as nat)
            } else {
                None
            },
            _ => None,
        }
    }
}

/// The offset where the blocks of a database start.
pub open spec fn first_block(t: Seq<char>, i: int) -> int {
    blank_end(t, run_end(t, i, CharClass::White), false)
}

proof fn lemma_after_blocks(t: Seq<char>, i: int, defs: Seq<Definition>, n: nat)
    ensures
        after_blocks(t, i, defs, n) matches Some((k, ds)) ==> packages_from(t, i, defs)
            == packages_from(t, k, ds),
    decreases n,
{
    if n > 0 {
        let (p, j) = package_step(t, i);
        if let Ok(Some(d)) = p {
            if !defines(defs, d.name, d.version) && 0 <= i <= t.len() {
                lemma_after_blocks(t, blank_end(t, j, false), defs.push(d), (n - 1) as nat);
            }
        }
    }
}

/// In a database whose first `n` blocks are read without error, the next block, at `k`,
/// is rejected when it repeats the `name@version` of one of them: the whole parse fails
/// with the duplicate error at that block's `[`.
pub proof fn lemma_database_rejects_duplicate(
    t: Seq<char>,
    i: int,
    n: nat,
    k: int,
    defs: Seq<Definition>,
    d: Definition,
)
    requires
        after_blocks(t, first_block(t, i), seq![], n) == Some((k, defs)),
        package_step(t, k).0 == Ok::<_, Failure>(Some(d)),
        defines(defs, d.name, d.version),
    ensures
        database(t, i).0 == Err::<Seq<Definition>, _>(fail(k, duplicate_message(d.name, d.version))),
{
    lemma_after_blocks(t, first_block(t, i), seq![], n);
    lemma_duplicate_block_rejected(t, k, defs, d);
}

/// In a database whose first `n` blocks are read without error, the next block, at `k`,
/// is rejected when neither a `url` nor a `build` field follows its header: the whole
/// parse fails at that block's `[`, with a message that names its `name@version`.
pub proof fn lemma_database_rejects_fieldless_block(
    t: Seq<char>,
    i: int,
    n: nat,
    k: int,
    defs: Seq<Definition>,
    name: Seq<char>,
    version: Seq<char>,
    a: int,
)
    requires
        after_blocks(t, first_block(t, i), seq![], n) == Some((k, defs)),
        literal_at(t, k, "["@),
        header_step(t, k + 1) == (Ok::<_, Failure>((name, version)), a),
        url_field_step(t, blank_end(t, a, false)).0 == Ok::<_, Failure>(None::<Seq<char>>),
        build_step(t, blank_end(t, url_field_step(t, blank_end(t, a, false)).1, false)).0 == Ok::<
            _,
            Failure,
        >(None::<Seq<char>>),
    ensures
        database(t, i).0 == Err::<Seq<Definition>, _>(fail(k, missing_fields_message(name, version))),
        missing_fields_message(name, version).subrange(13, 13 + id_of(name, version).len() as int)
            == id_of(name, version),
{
    lemma_after_blocks(t, first_block(t, i), seq![], n);
    lemma_block_without_fields_rejected(t, k, name, version, a);
}

pub proof fn lemma_literal_step_bounds(t: Seq<char>, i: int, lit: Seq<char>)
    requires
        0 <= i <= t.len(),
    ensures
        i <= literal_step(t, i, lit).1 <= t.len(),
{
}

pub proof fn lemma_token_step_bounds(t: Seq<char>, i: int, k: CharClass, message: Seq<char>)
    requires
        0 <= i <= t.len(),
    ensures
        i <= token_step(t, i, k, message).1 <= t.len(),
        token_step(t, i, k, message).0 is Ok ==> token_step(t, i, k, message).1 > i,
{
    lemma_run_end_bounds(t, i, k);
}

pub proof fn lemma_command_line_step_bounds(t: Seq<char>, i: int)
    requires
        0 <= i <= t.len(),
    ensures
        i <= command_line_step(t, i).1 <= t.len(),
        command_line_step(t, i).0 is Ok ==> command_line_step(t, i).1 > i,
{
    lemma_token_step_bounds(t, i, CharClass::Line, "Expecting a command"@);
}

pub proof fn lemma_build_lines_bounds(t: Seq<char>, i: int, acc: Seq<char>)
    requires
        0 <= i <= t.len(),
    ensures
        i <= build_lines(t, i, acc).1 <= t.len(),
    decreases t.len() - i,
{
    if 0 <= i < t.len() && t[i] == ' ' {
        let w = run_end(t, i, CharClass::White);
        lemma_run_end_bounds(t, i, CharClass::White);
        lemma_command_line_step_bounds(t, w);
        let (c, k) = command_line_step(t, w);
        if let Ok(s) = c {
            lemma_build_lines_bounds(t, k, acc + s + seq!['\n']);
        }
    }
}

pub proof fn lemma_url_field_step_bounds(t: Seq<char>, i: int)
    requires
        0 <= i <= t.len(),
    ensures
        i <= url_field_step(t, i).1 <= t.len(),
{
    if literal_at(t, i, "url"@) {
        let s = run_end(t, i + "url"@.len(), CharClass::Space);
        lemma_run_end_bounds(t, i + "url"@.len(), CharClass::Space);
        lemma_literal_step_bounds(t, s, "="@);
        let a = literal_step(t, s, "="@).1;
        lemma_run_end_bounds(t, a, CharClass::Space);
        lemma_run_end_bounds(t, run_end(t, a, CharClass::Space), CharClass::Line);
    }
}

pub proof fn lemma_build_step_bounds(t: Seq<char>, i: int)
    requires
        0 <= i <= t.len(),
    ensures
        i <= build_step(t, i).1 <= t.len(),
{
    if literal_at(t, i, "build"@) {
        let s = run_end(t, i + "build"@.len(), CharClass::Space);
        lemma_run_end_bounds(t, i + "build"@.len(), CharClass::Space);
        lemma_literal_step_bounds(t, s, "="@);
        let a = literal_step(t, s, "="@).1;
        lemma_run_end_bounds(t, a, CharClass::Space);
        let w = run_end(t, a, CharClass::Space);
        lemma_command_line_step_bounds(t, w);
        let (first, b) = command_line_step(t, w);
        if let Ok(x) = first {
            lemma_build_lines_bounds(t, b, x + seq!['\n']);
        }
    }
}

pub proof fn lemma_header_step_bounds(t: Seq<char>, i: int)
    requires
        0 <= i <= t.len(),
    ensures
        i <= header_step(t, i).1 <= t.len(),
{
    lemma_token_step_bounds(t, i, CharClass::Name, "Expecting a package name"@);
    let a = name_step(t, i).1;
    lemma_run_end_bounds(t, a, CharClass::Space);
    let sa = run_end(t, a, CharClass::Space);
    lemma_literal_step_bounds(t, sa, "@"@);
    let b = literal_step(t, sa, "@"@).1;
    lemma_run_end_bounds(t, b, CharClass::Space);
    let sb = run_end(t, b, CharClass::Space);
    lemma_token_step_bounds(t, sb, CharClass::Version, "Expecting a package version"@);
    let c = version_step(t, sb).1;
    lemma_run_end_bounds(t, c, CharClass::Space);
    let sc = run_end(t, c, CharClass::Space);
    lemma_literal_step_bounds(t, sc, "]"@);
}

pub proof fn lemma_package_step_bounds(t: Seq<char>, i: int)
    requires
        0 <= i <= t.len(),
    ensures
        i <= package_step(t, i).1 <= t.len(),
        package_step(t, i).0 matches Ok(Some(_)) ==> package_step(t, i).1 > i,
{
    if literal_at(t, i, "["@) {
        reveal_strlit("[");
        let h = i + "["@.len();
        lemma_header_step_bounds(t, h);
        let a = header_step(t, h).1;
        lemma_blank_end_bounds(t, a, false);
        let ba = blank_end(t, a, false);
        lemma_url_field_step_bounds(t, ba);
        let b = url_field_step(t, ba).1;
        lemma_blank_end_bounds(t, b, false);
        lemma_build_step_bounds(t, blank_end(t, b, false));
    }
}

pub open spec fn res_opt_def(r: Result<Option<PackageDef>, ParseError>) -> Result<
    Option<Definition>,
    Failure,
> {
    match r {
        Ok(Some(d)) => Ok(Some(d@)),
        Ok(None) => Ok(None),
        Err(e) => Err(e@),
    }
}

pub open spec fn defs_view(v: Seq<PackageDef>) -> Seq<Definition> {
    v.map_values(|d: PackageDef| d@)
}

pub open spec fn res_defs(r: Result<Vec<PackageDef>, ParseError>) -> Result<Seq<Definition>, Failure> {
    match r {
        Ok(v) => Ok(defs_view(v@)),
        Err(e) => Err(e@),
    }
}

impl Parser {
    /// The cursor lies within the text.
    pub open spec fn wf(&self) -> bool {
        self.offset <= self.buffer.len()
    }

    /// A parser at the start of `s`.
    pub fn init(s: &str) -> (r: Parser)
        ensures
            r.wf(),
            r.buffer@ == s@,
            r.offset == 0,
    {
        let mut buffer: Vec<char> = Vec::new();
        let n = s.unicode_len();
        let mut i: usize = 0;
        while i < n
            invariant
                n == s@.len(),
                i <= n,
                buffer@ == s@.subrange(0, i as int),
            decreases n - i,
        {
            buffer.push(s.get_char(i));
            i = i + 1;
            proof {
                assert(buffer@ =~= s@.subrange(0, i as int));
            }
        }
        proof {
            assert(s@.subrange(0, n as int) =~= s@);
        }
        Parser { offset: 0, buffer }
    }

    /// The character under the cursor, which moves past it.
    fn read(&mut self) -> (r: Option<char>)
        requires
            old(self).wf(),
        ensures
            final(self).wf(),
            final(self).buffer@ == old(self).buffer@,
            old(self).offset < old(self).buffer.len() ==> r == Some(old(self).buffer@[old(
                self,
            ).offset as int]) && final(self).offset == old(self).offset + 1,
            old(self).offset >= old(self).buffer.len() ==> r is None && final(self).offset == old(
                self,
            ).offset,
    {
        if self.offset < self.buffer.len() {
            let c = self.buffer[self.offset];
            self.offset = self.offset + 1;
            Some(c)
        } else {
            None
        }
    }

    /// The character under the cursor.
    fn peek(&self) -> (r: Option<char>)
        ensures
            self.offset < self.buffer.len() ==> r == Some(self.buffer@[self.offset as int]),
            self.offset >= self.buffer.len() ==> r is None,
    {
        if self.offset < self.buffer.len() {
            Some(self.buffer[self.offset])
        } else {
            None
        }
    }

    /// Reads the longest run of class `k` under the cursor.
    fn scan(&mut self, k: CharClass) -> (r: String)
        requires
            old(self).wf(),
        ensures
            final(self).wf(),
            final(self).buffer@ == old(self).buffer@,
            final(self).offset == run_end(old(self).buffer@, old(self).offset as int, k),
            old(self).offset <= final(self).offset,
            r@ == old(self).buffer@.subrange(old(self).offset as int, final(self).offset as int),
    {
        let ghost t = self.buffer@;
        let ghost start = self.offset as int;
        let mut value = String::new();
        loop
            invariant
                self.wf(),
                self.buffer@ == t,
                t == old(self).buffer@,
                start == old(self).offset,
                start <= self.offset,
                value@ == t.subrange(start, self.offset as int),
                run_end(t, self.offset as int, k) == run_end(t, start, k),
            ensures
                self.offset == run_end(t, start, k),
            decreases t.len() - self.offset,
        {
            match self.peek() {
                None => break,
                Some(c) => {
                    if class_has(k, c) {
                        self.read();
                        push_char(&mut value, c);
                        proof {
                            assert(value@ =~= t.subrange(start, self.offset as int));
                        }
                    } else {
                        break;
                    }
                }
            }
        }
        value
    }

    pub fn match_literal(&mut self, s: &str) -> (r: Result<(), ParseError>)
        requires
            old(self).wf(),
        ensures
            final(self).wf(),
            final(self).buffer@ == old(self).buffer@,
            (res_unit(r), final(self).offset as int) == literal_step(
                old(self).buffer@,
                old(self).offset as int,
                s@,
            ),
    {
        let ghost t = self.buffer@;
        let n = s.unicode_len();
        if n > self.buffer.len() - self.offset {
            let message = String::from_str("Expecting ").concat(s);
            return Err(ParseError { message, offset: self.offset });
        }
        let mut k: usize = 0;
        while k < n
            invariant
                self.wf(),
                self.buffer@ == t,
                t == old(self).buffer@,
                self.offset == old(self).offset,
                n == s@.len(),
                k <= n,
                self.offset + n <= t.len(),
                forall|j: int| 0 <= j < k ==> t[self.offset + j] == s@[j],
            decreases n - k,
        {
            if self.buffer[self.offset + k] != s.get_char(k) {
                proof {
                    if literal_at(t, self.offset as int, s@) {
                        assert(t.subrange(self.offset as int, self.offset + n)[k as int] == s@[k as int]);
                    }
                }
                let message = String::from_str("Expecting ").concat(s);
                return Err(ParseError { message, offset: self.offset });
            }
            k = k + 1;
        }
        proof {
            assert(t.subrange(self.offset as int, self.offset + n) =~= s@);
        }
        self.offset = self.offset + n;
        Ok(())
    }

    pub fn match_newline(&mut self) -> (r: Result<(), ParseError>)
        requires
            old(self).wf(),
        ensures
            final(self).wf(),
            final(self).buffer@ == old(self).buffer@,
            (res_unit(r), final(self).offset as int) == newline_step(
                old(self).buffer@,
                old(self).offset as int,
            ),
    {
        proof {
            reveal_strlit("\n");
            assert("\n"@ =~= seq!['\n']);
        }
        if self.match_literal("\n").is_err() {
            let message = String::from_str("Expecting a newline");
            Err(ParseError { message, offset: self.offset })
        } else {
            Ok(())
        }
    }

    /// Reads the spaces under the cursor.
    pub fn whitespace(&mut self) -> (r: String)
        requires
            old(self).wf(),
        ensures
            final(self).wf(),
            final(self).buffer@ == old(self).buffer@,
            final(self).offset == run_end(old(self).buffer@, old(self).offset as int, CharClass::Space),
            r@ == old(self).buffer@.subrange(old(self).offset as int, final(self).offset as int),
    {
        self.scan(CharClass::Space)
    }

    /// Skips white space, newlines included.
    pub fn skip_whitespace(&mut self)
        requires
            old(self).wf(),
        ensures
            final(self).wf(),
            final(self).buffer@ == old(self).buffer@,
            final(self).offset == run_end(old(self).buffer@, old(self).offset as int, CharClass::White),
    {
        self.scan(CharClass::White);
    }

    /// Skips spaces.
    pub fn skip_space(&mut self)
        requires
            old(self).wf(),
        ensures
            final(self).wf(),
            final(self).buffer@ == old(self).buffer@,
            final(self).offset == run_end(old(self).buffer@, old(self).offset as int, CharClass::Space),
    {
        self.scan(CharClass::Space);
    }

    /// Skips spaces, newlines and `#` comments.
    pub fn skip_whitespace_or_comment(&mut self)
        requires
            old(self).wf(),
        ensures
            final(self).wf(),
            final(self).buffer@ == old(self).buffer@,
            final(self).offset == blank_end(old(self).buffer@, old(self).offset as int, false),
    {
        let ghost t = self.buffer@;
        let ghost start = self.offset as int;
        let mut in_comment = false;
        loop
            invariant
                self.wf(),
                self.buffer@ == t,
                t == old(self).buffer@,
                start == old(self).offset,
                blank_end(t, self.offset as int, in_comment) == blank_end(t, start, false),
            ensures
                self.offset == blank_end(t, start, false),
            decreases t.len() - self.offset,
        {
            match self.peek() {
                None => break,
                Some(c) => {
                    if in_comment {
                        self.read();
                        in_comment = c != '\n';
                    } else if c == '#' || c == ' ' || c == '\n' {
                        self.read();
                        in_comment = c == '#';
                    } else {
                        break;
                    }
                }
            }
        }
    }

    pub fn package_name(&mut self) -> (r: Result<String, ParseError>)
        requires
            old(self).wf(),
        ensures
            final(self).wf(),
            final(self).buffer@ == old(self).buffer@,
            (res_text(r), final(self).offset as int) == name_step(
                old(self).buffer@,
                old(self).offset as int,
            ),
    {
        let name = self.scan(CharClass::Name);
        if name.as_str().unicode_len() == 0 {
            let message = String::from_str("Expecting a package name");
            Err(ParseError { message, offset: self.offset })
        } else {
            Ok(name)
        }
    }

    pub fn package_version(&mut self) -> (r: Result<String, ParseError>)
        requires
            old(self).wf(),
        ensures
            final(self).wf(),
            final(self).buffer@ == old(self).buffer@,
            (res_text(r), final(self).offset as int) == version_step(
                old(self).buffer@,
                old(self).offset as int,
            ),
    {
        let version = self.scan(CharClass::Version);
        if version.as_str().unicode_len() == 0 {
            let message = String::from_str("Expecting a package version");
            Err(ParseError { message, offset: self.offset })
        } else {
            Ok(version)
        }
    }

    /// The rest of the line, trimmed; the newline after it is consumed.
    pub fn url(&mut self) -> (r: Result<String, ParseError>)
        requires
            old(self).wf(),
        ensures
            final(self).wf(),
            final(self).buffer@ == old(self).buffer@,
            (res_text(r), final(self).offset as int) == url_step(
                old(self).buffer@,
                old(self).offset as int,
            ),
    {
        let start = self.offset;
        let value = self.scan(CharClass::Line);
        proof {
            lemma_run_end_bounds(self.buffer@, start as int, CharClass::Line);
        }
        if self.peek() == Some('\n') {
            self.read();
        }
        if value.as_str().unicode_len() == 0 {
            let message = String::from_str("Expecting an url");
            Err(ParseError { message, offset: start })
        } else {
            Ok(trim(value.as_str()))
        }
    }

    pub fn url_field(&mut self) -> (r: Result<Option<String>, ParseError>)
        requires
            old(self).wf(),
        ensures
            final(self).wf(),
            final(self).buffer@ == old(self).buffer@,
            (res_opt_text(r), final(self).offset as int) == url_field_step(
                old(self).buffer@,
                old(self).offset as int,
            ),
    {
        if self.match_literal("url").is_err() {
            return Ok(None);
        }
        self.skip_space();
        if let Err(e) = self.match_literal("=") {
            return Err(e);
        }
        self.skip_space();
        match self.url() {
            Ok(url) => Ok(Some(url)),
            Err(e) => Err(e),
        }
    }

    /// A command and the newline after it.
    fn command_line(&mut self) -> (r: Result<String, ParseError>)
        requires
            old(self).wf(),
        ensures
            final(self).wf(),
            final(self).buffer@ == old(self).buffer@,
            (res_text(r), final(self).offset as int) == command_line_step(
                old(self).buffer@,
                old(self).offset as int,
            ),
    {
        let command = match self.command() {
            Ok(c) => c,
            Err(e) => return Err(e),
        };
        match self.match_newline() {
            Ok(_) => Ok(command),
            Err(e) => Err(e),
        }
    }

    pub fn build(&mut self) -> (r: Result<Option<String>, ParseError>)
        requires
            old(self).wf(),
        ensures
            final(self).wf(),
            final(self).buffer@ == old(self).buffer@,
            (res_opt_text(r), final(self).offset as int) == build_step(
                old(self).buffer@,
                old(self).offset as int,
            ),
    {
        let ghost t = self.buffer@;
        if self.match_literal("build").is_err() {
            return Ok(None);
        }
        self.skip_space();
        if let Err(e) = self.match_literal("=") {
            return Err(e);
        }
        self.skip_space();
        let mut commands = match self.command_line() {
            Ok(c) => c,
            Err(e) => return Err(e),
        };
        let ghost first = commands@;
        push_char(&mut commands, '\n');
        proof {
            assert(commands@ =~= first + seq!['\n']);
        }
        let ghost target = build_lines(t, self.offset as int, commands@);
        loop
            invariant
                self.wf(),
                self.buffer@ == t,
                t == old(self).buffer@,
                build_step(t, old(self).offset as int) == as_some(target),
                build_lines(t, self.offset as int, commands@) == target,
            decreases t.len() - self.offset,
        {
            match self.peek() {
                Some(' ') => {},
                _ => {
                    return Ok(Some(commands));
                },
            }
            let ghost before = self.offset as int;
            self.skip_whitespace();
            proof {
                lemma_run_end_bounds(t, before, CharClass::White);
                lemma_command_line_step_bounds(t, self.offset as int);
            }
            let command = match self.command_line() {
                Ok(c) => c,
                Err(e) => return Err(e),
            };
            let ghost acc = commands@;
            commands.append(command.as_str());
            push_char(&mut commands, '\n');
            proof {
                assert(commands@ =~= acc + command@ + seq!['\n']);
            }
        }
    }

    /// Whether `defs` already holds a definition named `name@version`.
    fn is_defined(defs: &Vec<PackageDef>, name: &String, version: &String) -> (r: bool)
        ensures
            r == defines(defs_view(defs@), name@, version@),
    {
        let mut k: usize = 0;
        while k < defs.len()
            invariant
                k <= defs.len(),
                forall|j: int|
                    0 <= j < k ==> !((#[trigger] defs@[j]).name@ == name@ && defs@[j].version@
                        == version@),
            decreases defs.len() - k,
        {
            if defs[k].name == *name && defs[k].version == *version {
                proof {
                    assert(defs_view(defs@)[k as int] == defs@[k as int]@);
                }
                return true;
            }
            k = k + 1;
        }
        proof {
            if defines(defs_view(defs@), name@, version@) {
                let j = choose|j: int|
                    0 <= j < defs_view(defs@).len() && (#[trigger] defs_view(defs@)[j]).name == name@
                        && defs_view(defs@)[j].version == version@;
                assert(defs_view(defs@)[j] == defs@[j]@);
            }
        }
        false
    }

    /// One package block; `None` when the cursor is not on a `[`.
    pub fn package(&mut self) -> (r: Result<Option<PackageDef>, ParseError>)
        requires
            old(self).wf(),
        ensures
            final(self).wf(),
            final(self).buffer@ == old(self).buffer@,
            (res_opt_def(r), final(self).offset as int) == package_step(
                old(self).buffer@,
                old(self).offset as int,
            ),
    {
        let offset = self.offset;
        if self.match_literal("[").is_err() {
            return Ok(None);
        }
        let name = match self.package_name() {
            Ok(n) => n,
            Err(e) => return Err(e),
        };
        self.skip_space();
        if let Err(e) = self.match_literal("@") {
            return Err(e);
        }
        self.skip_space();
        let version = match self.package_version() {
            Ok(v) => v,
            Err(e) => return Err(e),
        };
        self.skip_space();
        if let Err(e) = self.match_literal("]") {
            return Err(e);
        }
        if let Err(e) = self.match_newline() {
            return Err(e);
        }
        self.skip_whitespace_or_comment();
        let url = match self.url_field() {
            Ok(u) => u,
            Err(e) => return Err(e),
        };
        self.skip_whitespace_or_comment();
        let build = match self.build() {
            Ok(b) => b,
            Err(e) => return Err(e),
        };
        if url.is_none() && build.is_none() {
            let package_id = name.clone().concat("@").concat(version.as_str());
            let message = String::from_str("The package [").concat(package_id.as_str()).concat(
                "] must define at least a url or build field",
            );
            return Err(ParseError { offset, message });
        }
        let def = PackageDef { name, version, url, build, depends: Vec::new() };
        proof {
            assert(def@.depends =~= seq![]);
        }
        Ok(Some(def))
    }

    /// All package blocks from the cursor on, in order, up to the end of the text; no two
    /// share a `name@version`.
    pub fn packages(&mut self) -> (r: Result<Vec<PackageDef>, ParseError>)
        requires
            old(self).wf(),
        ensures
            final(self).wf(),
            final(self).buffer@ == old(self).buffer@,
            (res_defs(r), final(self).offset as int) == database(
                old(self).buffer@,
                old(self).offset as int,
            ),
            r is Ok ==> final(self).offset == final(self).buffer.len(),
    {
        let ghost t = self.buffer@;
        proof {
            lemma_database_consumes_all(t, self.offset as int);
        }
        let mut packages: Vec<PackageDef> = Vec::new();
        self.skip_whitespace();
        self.skip_whitespace_or_comment();
        let mut offset = self.offset;
        proof {
            assert(defs_view(packages@) =~= seq![]);
        }
        loop
            invariant
                self.wf(),
                self.buffer@ == t,
                t == old(self).buffer@,
                offset == self.offset,
                packages_from(t, offset as int, defs_view(packages@)) == database(
                    t,
                    old(self).offset as int,
                ),
            decreases t.len() - offset,
        {
            proof {
                lemma_package_step_bounds(t, offset as int);
            }
            let package = match self.package() {
                Err(e) => return Err(e),
                Ok(None) => {
                    if self.offset < self.buffer.len() {
                        let message = String::from_str("Expecting ").concat("[");
                        return Err(ParseError { message, offset: self.offset });
                    }
                    return Ok(packages);
                },
                Ok(Some(p)) => p,
            };
            if Self::is_defined(&packages, &package.name, &package.version) {
                let message = String::from_str("Package [").concat(package.name.as_str()).concat(
                    ":",
                ).concat(package.version.as_str()).concat("] has already been defined");
                return Err(ParseError { message, offset });
            }
            proof {
                assert(defs_view(packages@.push(package)) =~= defs_view(packages@).push(package@));
            }
            packages.push(package);
            let ghost j = self.offset as int;
            self.skip_whitespace_or_comment();
            proof {
                lemma_blank_end_bounds(t, j, false);
            }
            offset = self.offset;
        }
    }

    /// The rest of the line, which must not be empty; the newline is left.
    pub fn command(&mut self) -> (r: Result<String, ParseError>)
        requires
            old(self).wf(),
        ensures
            final(self).wf(),
            final(self).buffer@ == old(self).buffer@,
            (res_text(r), final(self).offset as int) == command_step(
                old(self).buffer@,
                old(self).offset as int,
            ),
    {
        let value = self.scan(CharClass::Line);
        if value.as_str().unicode_len() == 0 {
            let message = String::from_str("Expecting a command");
            Err(ParseError { message, offset: self.offset })
        } else {
            Ok(value)
        }
    }
}

} // verus!
