//! Reading a line the repo search turned up as the definition of a name, rather than as one
//! more mention of it.
//!
//! The search finds every line holding the name: the one that declares it, and the two
//! hundred that call it. Telling them apart is a guess made from how the line starts - `fn
//! greet(` declares and `greet(name)` calls - so the guess is a table per language rather
//! than a chain of conditions, and adding a language is a row in it.
//!
//! Every hit comes back scored rather than filtered. A mention is a worse answer than a
//! definition and a far better one than nothing.

use vstd::prelude::*;

use crate::paths::{extension, extension_spec};
use crate::text::{
    alphanumeric, chars_of, chars_same_ignoring_ascii_case, contains, eq_ignoring_ascii_case,
    has_substring, is_alphanumeric, lowercase_of, occurs_at, occurs_at_in, to_lowercase,
};

verus! {

/// One line a search of the repo turned up.
#[derive(Debug, PartialEq)]
pub struct ContentMatch {
    pub file_path: String,
    pub line_number: usize,
    pub line: String,
}

impl ContentMatch {
    pub fn duplicate(&self) -> (copy: ContentMatch)
        ensures
            copy == *self,
    {
        ContentMatch {
            file_path: self.file_path.clone(),
            line_number: self.line_number,
            line: self.line.clone(),
        }
    }
}

/// What a line reading like a definition of the name is worth. Far more than anything else
/// scored here, because it is the only signal that answers the question actually being asked.
pub const DEFINES: i32 = 100;

/// What spelling the name the same way is worth: enough to break a tie between two mentions or
/// two definitions, and no more.
pub const SPELLED_THE_SAME: i32 = 10;

/// A hit and how much it reads like the definition of the name, rather than a mention of it.
#[derive(Debug)]
pub struct Ranked {
    pub score: i32,
    pub found: ContentMatch,
}

impl Ranked {
    /// Whether this hit reads as the definition of the name rather than as a mention of it.
    pub fn reads_as_a_definition(&self) -> (yes: bool)
        ensures
            yes == (self.score >= DEFINES),
    {
        self.score >= DEFINES
    }
}

pub open spec fn rust_words() -> Seq<Seq<char>> {
    seq![
        "fn "@,
        "struct "@,
        "enum "@,
        "trait "@,
        "impl "@,
        "type "@,
        "const "@,
        "static "@,
        "mod "@,
        "union "@,
        "macro_rules! "@,
    ]
}

pub open spec fn typescript_words() -> Seq<Seq<char>> {
    seq![
        "function "@,
        "class "@,
        "interface "@,
        "type "@,
        "enum "@,
        "const "@,
        "let "@,
        "var "@,
        "namespace "@,
    ]
}

pub open spec fn swift_words() -> Seq<Seq<char>> {
    seq!["func "@, "class "@, "struct "@, "enum "@, "protocol "@, "extension "@, "let "@, "var "@]
}

pub open spec fn cpp_words() -> Seq<Seq<char>> {
    seq!["struct "@, "enum "@, "union "@, "class "@, "typedef "@, "namespace "@, "#define "@]
}

/// What a definition of a name starts with in the language of a file with this extension, in
/// lowercase. A trailing space is part of each on purpose - `fn` in prose is not a definition,
/// and `fnord` is not one either.
pub open spec fn keywords_for(ext: Seq<char>) -> Seq<Seq<char>> {
    if ext == "rs"@ {
        rust_words()
    } else if ext == "ts"@ || ext == "tsx"@ || ext == "js"@ || ext == "jsx"@ || ext == "mjs"@ {
        typescript_words()
    } else if ext == "py"@ {
        seq!["def "@, "class "@]
    } else if ext == "go"@ {
        seq!["func "@, "type "@, "var "@, "const "@, "package "@]
    } else if ext == "rb"@ {
        seq!["def "@, "class "@, "module "@]
    } else if ext == "java"@ {
        seq!["class "@, "interface "@, "enum "@, "record "@, "void "@]
    } else if ext == "kt"@ {
        seq!["fun "@, "class "@, "interface "@, "object "@, "val "@, "var "@]
    } else if ext == "swift"@ {
        swift_words()
    } else if ext == "c"@ || ext == "h"@ {
        seq!["struct "@, "enum "@, "union "@, "typedef "@, "#define "@]
    } else if ext == "cc"@ || ext == "cpp"@ || ext == "hpp"@ {
        cpp_words()
    } else if ext == "cs"@ {
        seq!["class "@, "interface "@, "enum "@, "struct "@, "record "@, "void "@]
    } else if ext == "php"@ {
        seq!["function "@, "class "@, "interface "@, "trait "@, "const "@]
    } else if ext == "sh"@ || ext == "bash"@ || ext == "zsh"@ {
        seq!["function "@]
    } else if ext == "sql"@ {
        seq!["table "@, "view "@, "function "@, "procedure "@, "index "@]
    } else if ext == "css"@ || ext == "scss"@ {
        seq!["@mixin "@, "@keyframes "@, "--"@]
    } else {
        Seq::empty()
    }
}

/// What a definition looks like in the file a hit is in, by the lowercase of its extension. A
/// file whose extension is in no table has nothing to score by.
pub open spec fn keywords_of_path(file_path: Seq<char>) -> Seq<Seq<char>> {
    match extension_spec(file_path) {
        None => Seq::empty(),
        Some(ext) => keywords_for(lowercase_of(ext)),
    }
}

fn words(list: &[&str]) -> (out: Vec<String>)
    ensures
        out@.len() == list@.len(),
        forall|k: int| 0 <= k < list@.len() ==> #[trigger] out@[k]@ == list@[k]@,
{
    let mut out: Vec<String> = Vec::new();
    let mut k: usize = 0;
    while k < list.len()
        invariant
            k <= list@.len(),
            out@.len() == k,
            forall|m: int| 0 <= m < k ==> #[trigger] out@[m]@ == list@[m]@,
        decreases list@.len() - k,
    {
        out.push(String::from_str(list[k]));
        k = k + 1;
    }
    out
}

fn is(ext: &String, name: &str) -> (yes: bool)
    ensures
        yes == (ext@ == name@),
{
    *ext == String::from_str(name)
}

/// The words of [`keywords_for`], as strings.
fn keywords_for_extension(ext: &String) -> (out: Vec<String>)
    ensures
        out@.len() == keywords_for(ext@).len(),
        forall|k: int| 0 <= k < out@.len() ==> #[trigger] out@[k]@ == keywords_for(ext@)[k],
{
    let list: &[&str] = if is(ext, "rs") {
        &["fn ", "struct ", "enum ", "trait ", "impl ", "type ", "const ", "static ", "mod ",
            "union ", "macro_rules! "]
    } else if is(ext, "ts") || is(ext, "tsx") || is(ext, "js") || is(ext, "jsx") || is(ext, "mjs") {
        &["function ", "class ", "interface ", "type ", "enum ", "const ", "let ", "var ",
            "namespace "]
    } else if is(ext, "py") {
        &["def ", "class "]
    } else if is(ext, "go") {
        &["func ", "type ", "var ", "const ", "package "]
    } else if is(ext, "rb") {
        &["def ", "class ", "module "]
    } else if is(ext, "java") {
        &["class ", "interface ", "enum ", "record ", "void "]
    } else if is(ext, "kt") {
        &["fun ", "class ", "interface ", "object ", "val ", "var "]
    } else if is(ext, "swift") {
        &["func ", "class ", "struct ", "enum ", "protocol ", "extension ", "let ", "var "]
    } else if is(ext, "c") || is(ext, "h") {
        &["struct ", "enum ", "union ", "typedef ", "#define "]
    } else if is(ext, "cc") || is(ext, "cpp") || is(ext, "hpp") {
        &["struct ", "enum ", "union ", "class ", "typedef ", "namespace ", "#define "]
    } else if is(ext, "cs") {
        &["class ", "interface ", "enum ", "struct ", "record ", "void "]
    } else if is(ext, "php") {
        &["function ", "class ", "interface ", "trait ", "const "]
    } else if is(ext, "sh") || is(ext, "bash") || is(ext, "zsh") {
        &["function "]
    } else if is(ext, "sql") {
        &["table ", "view ", "function ", "procedure ", "index "]
    } else if is(ext, "css") || is(ext, "scss") {
        &["@mixin ", "@keyframes ", "--"]
    } else {
        &[]
    };
    let out = words(list);
    proof {
        reveal_strlit("fn ");
    }
    assert(out@.len() == keywords_for(ext@).len());
    out
}

/// What a definition looks like in the file this hit is in.
pub fn keywords_of(file_path: &str) -> (out: Vec<String>)
    ensures
        out@.len() == keywords_of_path(file_path@).len(),
        forall|k: int| 0 <= k < out@.len() ==> #[trigger] out@[k]@ == keywords_of_path(
            file_path@,
        )[k],
{
    match extension(file_path) {
        None => Vec::new(),
        Some(ext) => {
            let lowered = to_lowercase(ext.as_str());
            keywords_for_extension(&lowered)
        },
    }
}

/// Whether, `at` characters into a line, it goes on with the name - ignoring ASCII case - and
/// then with something that cannot be part of a longer name: `fn greeting` is not the
/// definition of `greet`.
pub open spec fn names_at(line: Seq<char>, at: int, word: Seq<char>) -> bool {
    &&& 0 <= at
    &&& at + word.len() <= line.len()
    &&& eq_ignoring_ascii_case(line.subrange(at, at + word.len()), word)
    &&& !(at + word.len() < line.len() && (alphanumeric(line[at + word.len()]) || line[at
        + word.len()] == '_'))
}

/// Whether, reading a line from `i` on and taking each match of the keyword in turn - a match
/// is looked for again only past the end of the last one, the way `str::match_indices` walks
/// - the keyword is followed by the name.
pub open spec fn defines_from(line: Seq<char>, keyword: Seq<char>, word: Seq<char>, i: int) -> bool
    decreases line.len() - i,
{
    if keyword.len() == 0 || i < 0 || i + keyword.len() > line.len() {
        false
    } else if occurs_at(line, keyword, i) {
        names_at(line, i + keyword.len(), word) || defines_from(
            line,
            keyword,
            word,
            i + keyword.len(),
        )
    } else {
        defines_from(line, keyword, word, i + 1)
    }
}

/// Whether a line reads as a definition of the name: one of the words its language starts a
/// definition with, and the name itself straight after it.
pub open spec fn defines_spec(word: Seq<char>, found: ContentMatch) -> bool {
    let keywords = keywords_of_path(found.file_path@);
    exists|k: int| 0 <= k < keywords.len() && defines_from(found.line@, #[trigger] keywords[k], word, 0)
}

/// A line that starts with a keyword and goes straight on with the name, then with something
/// that cannot be part of a longer name or with nothing, reads as that keyword defining it.
proof fn lemma_keyword_then_name(line: Seq<char>, keyword: Seq<char>, word: Seq<char>, rest: Seq<char>)
    requires
        keyword.len() > 0,
        line == keyword + word + rest,
        rest.len() > 0 ==> !(alphanumeric(rest[0]) || rest[0] == '_'),
    ensures
        defines_from(line, keyword, word, 0),
{
    assert(line.subrange(0, keyword.len() as int) =~= keyword);
    assert(occurs_at(line, keyword, 0));
    let at = keyword.len() as int;
    assert(line.subrange(at, at + word.len()) =~= word);
    assert(eq_ignoring_ascii_case(line.subrange(at, at + word.len()), word));
    if at + word.len() < line.len() {
        assert(line[at + word.len()] == rest[0]);
    }
    assert(names_at(line, at, word));
}

/// In a Python file - `.py`, in any case - a line that starts `def ` or `class ` and goes
/// straight on with the name, then with anything that cannot be part of a longer name, is a
/// definition of that name: `def greet(name):` defines `greet`.
pub proof fn law_a_python_def_or_class_defines_its_name(
    word: Seq<char>,
    found: ContentMatch,
    keyword: Seq<char>,
    rest: Seq<char>,
)
    requires
        extension_spec(found.file_path@) matches Some(e) && lowercase_of(e) == "py"@,
        keyword == "def "@ || keyword == "class "@,
        found.line@ == keyword + word + rest,
        rest.len() > 0 ==> !(alphanumeric(rest[0]) || rest[0] == '_'),
    ensures
        defines_spec(word, found),
{
    reveal_strlit("def ");
    reveal_strlit("class ");
    reveal_strlit("py");
    reveal_strlit("rs");
    reveal_strlit("ts");
    reveal_strlit("tsx");
    reveal_strlit("js");
    reveal_strlit("jsx");
    reveal_strlit("mjs");
    let e = extension_spec(found.file_path@)->0;
    assert("py"@[0] != "rs"@[0] && "py"@[0] != "ts"@[0] && "py"@[0] != "js"@[0]);
    assert("py"@.len() != "tsx"@.len() && "py"@.len() != "jsx"@.len() && "py"@.len() != "mjs"@.len());
    assert(keywords_for("py"@) =~= seq!["def "@, "class "@]);
    let keywords = keywords_of_path(found.file_path@);
    assert(keywords == keywords_for(lowercase_of(e)));
    lemma_keyword_then_name(found.line@, keyword, word, rest);
    if keyword == "def "@ {
        assert(defines_from(found.line@, keywords[0], word, 0));
    } else {
        assert(defines_from(found.line@, keywords[1], word, 0));
    }
}

/// In a Rust file - `.rs`, in any case - a line that starts `fn ` or `struct ` and goes
/// straight on with the name, then with anything that cannot be part of a longer name, is a
/// definition of that name: `fn greet(` defines `greet`, where `fn greeting(` does not.
pub proof fn law_a_rust_fn_or_struct_defines_its_name(
    word: Seq<char>,
    found: ContentMatch,
    keyword: Seq<char>,
    rest: Seq<char>,
)
    requires
        extension_spec(found.file_path@) matches Some(e) && lowercase_of(e) == "rs"@,
        keyword == "fn "@ || keyword == "struct "@,
        found.line@ == keyword + word + rest,
        rest.len() > 0 ==> !(alphanumeric(rest[0]) || rest[0] == '_'),
    ensures
        defines_spec(word, found),
{
    reveal_strlit("fn ");
    reveal_strlit("struct ");
    let keywords = keywords_of_path(found.file_path@);
    assert(keywords == rust_words());
    lemma_keyword_then_name(found.line@, keyword, word, rest);
    if keyword == "fn "@ {
        assert(defines_from(found.line@, keywords[0], word, 0));
    } else {
        assert(defines_from(found.line@, keywords[1], word, 0));
    }
}

/// What a hit is worth: a definition's score, and a tie-breaker for being spelled as clicked.
pub open spec fn score_spec(word: Seq<char>, found: ContentMatch) -> i32 {
    ((if defines_spec(word, found) {
        100int
    } else {
        0int
    }) + (if has_substring(found.line@, word) {
        10int
    } else {
        0int
    })) as i32
}

fn names_at_in(line: &Vec<char>, at: usize, word: &Vec<char>) -> (yes: bool)
    ensures
        yes == names_at(line@, at as int, word@),
{
    if at > line.len() || word.len() > line.len() - at {
        return false;
    }
    let mut k: usize = 0;
    while k < word.len()
        invariant
            k <= word.len(),
            at + word.len() <= line.len(),
            forall|m: int|
                0 <= m < k ==> crate::text::same_ignoring_ascii_case(
                    #[trigger] line@.subrange(at as int, at + word.len())[m],
                    word@[m],
                ),
        decreases word.len() - k,
    {
        assert(line@.subrange(at as int, at + word.len())[k as int] == line@[at + k]);
        if !chars_same_ignoring_ascii_case(line[at + k], word[k]) {
            return false;
        }
        k = k + 1;
    }
    let end = at + word.len();
    if end < line.len() {
        let next = line[end];
        if is_alphanumeric(next) || next == '_' {
            return false;
        }
    }
    true
}

fn defines_with(line: &Vec<char>, keyword: &Vec<char>, word: &Vec<char>) -> (yes: bool)
    ensures
        yes == defines_from(line@, keyword@, word@, 0),
{
    if keyword.len() == 0 {
        return false;
    }
    let mut i: usize = 0;
    while i <= line.len() && keyword.len() <= line.len() - i
        invariant
            keyword.len() > 0,
            i <= line.len() + 1,
            defines_from(line@, keyword@, word@, 0) == defines_from(
                line@,
                keyword@,
                word@,
                i as int,
            ),
        decreases line.len() + 1 - i,
    {
        if occurs_at_in(line, keyword, i) {
            if names_at_in(line, i + keyword.len(), word) {
                return true;
            }
            i = i + keyword.len();
        } else {
            i = i + 1;
        }
    }
    false
}

/// Whether the line reads as a definition of the name.
///
/// Case is ignored here and paid for separately, so the definition of `greet` still wins when
/// `Greet` was what was clicked.
pub fn defines(word: &str, found: &ContentMatch) -> (yes: bool)
    ensures
        yes == defines_spec(word@, *found),
{
    let keywords = keywords_of(found.file_path.as_str());
    let line = chars_of(found.line.as_str());
    let name = chars_of(word);
    let ghost table = keywords_of_path(found.file_path@);
    let mut k: usize = 0;
    while k < keywords.len()
        invariant
            k <= keywords.len(),
            table == keywords_of_path(found.file_path@),
            keywords@.len() == table.len(),
            forall|m: int| 0 <= m < keywords@.len() ==> #[trigger] keywords@[m]@ == table[m],
            line@ == found.line@,
            name@ == word@,
            forall|m: int| 0 <= m < k ==> !defines_from(found.line@, #[trigger] table[m], word@, 0),
        decreases keywords.len() - k,
    {
        let keyword = chars_of(keywords[k].as_str());
        if defines_with(&line, &keyword, &name) {
            assert(defines_from(found.line@, table[k as int], word@, 0));
            assert(exists|m: int|
                0 <= m < table.len() && defines_from(found.line@, #[trigger] table[m], word@, 0));
            return true;
        }
        k = k + 1;
    }
    false
}

fn score(word: &str, found: &ContentMatch) -> (s: i32)
    ensures
        s == score_spec(word@, *found),
{
    let defines = if defines(word, found) {
        DEFINES
    } else {
        0
    };
    let spelling = if contains(found.line.as_str(), word) {
        SPELLED_THE_SAME
    } else {
        0
    };
    defines + spelling
}

/// Where a hit of this score goes among hits already in order, best first: after every one
/// that scored at least as well, so hits that score the same stay in the order they came in.
pub open spec fn insert_place(sorted: Seq<Ranked>, score: i32) -> int
    decreases sorted.len(),
{
    if sorted.len() == 0 {
        0
    } else if sorted[0].score < score {
        0
    } else {
        1 + insert_place(sorted.drop_first(), score)
    }
}

/// Hits in order, best first, ties kept in the order they came in: each one put in after
/// every one before it that scored at least as well.
pub open spec fn best_first(hits: Seq<Ranked>) -> Seq<Ranked>
    decreases hits.len(),
{
    if hits.len() == 0 {
        Seq::empty()
    } else {
        let sorted = best_first(hits.drop_last());
        sorted.insert(insert_place(sorted, hits.last().score), hits.last())
    }
}

/// The hits, scored.
pub open spec fn scored(word: Seq<char>, matches: Seq<ContentMatch>) -> Seq<Ranked> {
    Seq::new(matches.len(), |k: int| Ranked { score: score_spec(word, matches[k]), found: matches[k] })
}

proof fn lemma_insert_place_bound(sorted: Seq<Ranked>, score: i32)
    ensures
        0 <= insert_place(sorted, score) <= sorted.len(),
    decreases sorted.len(),
{
    if sorted.len() > 0 && sorted[0].score >= score {
        lemma_insert_place_bound(sorted.drop_first(), score);
    }
}

proof fn lemma_best_first_len(hits: Seq<Ranked>)
    ensures
        best_first(hits).len() == hits.len(),
    decreases hits.len(),
{
    if hits.len() > 0 {
        lemma_best_first_len(hits.drop_last());
        lemma_insert_place_bound(best_first(hits.drop_last()), hits.last().score);
    }
}

fn find_insert_place(sorted: &Vec<Ranked>, score: i32) -> (at: usize)
    ensures
        at == insert_place(sorted@, score),
{
    let mut at: usize = 0;
    assert(sorted@.skip(0) =~= sorted@);
    while at < sorted.len()
        invariant
            at <= sorted.len(),
            insert_place(sorted@, score) == at + insert_place(sorted@.skip(at as int), score),
        decreases sorted.len() - at,
    {
        assert(sorted@.skip(at as int).drop_first() =~= sorted@.skip(at + 1));
        assert(sorted@.skip(at as int)[0] == sorted@[at as int]);
        if sorted[at].score < score {
            return at;
        }
        at = at + 1;
    }
    at
}

/// Every hit, best first. A hit that reads like nothing in particular still comes back: a
/// mention is a worse answer than a definition and a much better one than nothing. Hits that
/// score the same stay in the order the search walked the repo in.
pub fn rank(word: &str, matches: Vec<ContentMatch>) -> (ranked: Vec<Ranked>)
    ensures
        ranked@ == best_first(scored(word@, matches@)),
{
    let ghost hits = scored(word@, matches@);
    let mut ranked: Vec<Ranked> = Vec::new();
    let mut i: usize = 0;
    while i < matches.len()
        invariant
            i <= matches.len(),
            hits == scored(word@, matches@),
            ranked@ == best_first(hits.take(i as int)),
        decreases matches.len() - i,
    {
        let hit = Ranked { score: score(word, &matches[i]), found: matches[i].duplicate() };
        assert(hit == hits[i as int]);
        let ghost next = hits.take(i + 1);
        assert(next.drop_last() =~= hits.take(i as int));
        assert(next.last() == hit);
        proof {
            lemma_insert_place_bound(ranked@, hit.score);
        }
        let at = find_insert_place(&ranked, hit.score);
        ranked.insert(at, hit);
        i = i + 1;
    }
    assert(hits.take(matches.len() as int) =~= hits);
    ranked
}

proof fn lemma_insert_place_splits(sorted: Seq<Ranked>, score: i32)
    ensures
        forall|k: int| 0 <= k < insert_place(sorted, score) ==> #[trigger] sorted[k].score >= score,
        insert_place(sorted, score) < sorted.len() ==> sorted[insert_place(sorted, score)].score
            < score,
    decreases sorted.len(),
{
    if sorted.len() > 0 && sorted[0].score >= score {
        let rest = sorted.drop_first();
        lemma_insert_place_splits(rest, score);
        lemma_insert_place_bound(rest, score);
        let p = insert_place(sorted, score);
        if p < sorted.len() {
            assert(sorted[p] == rest[p - 1]);
        }
        assert forall|k: int| 0 <= k < insert_place(sorted, score) implies #[trigger] sorted[k].score
            >= score by {
            if k > 0 {
                assert(sorted[k] == rest[k - 1]);
            }
        }
    }
}

/// Scores never rise, reading down.
pub open spec fn never_rises(ranked: Seq<Ranked>) -> bool {
    forall|i: int, j: int| 0 <= i < j < ranked.len() ==> ranked[i].score >= ranked[j].score
}

/// The ranking is best first: no hit scores more than one above it.
pub proof fn law_ranking_is_best_first(hits: Seq<Ranked>)
    ensures
        never_rises(best_first(hits)),
        best_first(hits).len() == hits.len(),
    decreases hits.len(),
{
    lemma_best_first_len(hits);
    if hits.len() > 0 {
        let sorted = best_first(hits.drop_last());
        law_ranking_is_best_first(hits.drop_last());
        let x = hits.last();
        let p = insert_place(sorted, x.score);
        lemma_insert_place_bound(sorted, x.score);
        lemma_insert_place_splits(sorted, x.score);
        sorted.insert_ensures(p, x);
        let out = sorted.insert(p, x);
        assert forall|i: int, j: int| 0 <= i < j < out.len() implies out[i].score
            >= out[j].score by {
            if j < p {
                assert(out[i] == sorted[i] && out[j] == sorted[j]);
            } else if j == p {
                assert(out[i] == sorted[i]);
            } else if i < p {
                assert(out[i] == sorted[i] && out[j] == sorted[j - 1]);
                assert(sorted[p].score < x.score);
                assert(sorted[i].score >= x.score);
            } else if i == p {
                assert(out[j] == sorted[j - 1]);
                assert(sorted[p].score >= sorted[j - 1].score);
            } else {
                assert(out[i] == sorted[i - 1] && out[j] == sorted[j - 1]);
            }
        }
    }
}

/// Ranking leaves no hit out and puts none in twice: every hit the search found comes back.
pub proof fn law_ranking_keeps_every_hit(hits: Seq<Ranked>)
    ensures
        best_first(hits).to_multiset() == hits.to_multiset(),
    decreases hits.len(),
{
    broadcast use vstd::seq_lib::group_to_multiset_ensures;

    if hits.len() == 0 {
        assert(best_first(hits) =~= hits);
    } else {
        let sorted = best_first(hits.drop_last());
        law_ranking_keeps_every_hit(hits.drop_last());
        let x = hits.last();
        let p = insert_place(sorted, x.score);
        lemma_insert_place_bound(sorted, x.score);
        let out = sorted.insert(p, x);
        sorted.insert_ensures(p, x);
        assert(out.remove(p) =~= sorted);
        assert(out[p] == x);
        assert(out.contains(x));
        assert(out.to_multiset().remove(x).insert(x) =~= out.to_multiset());
        assert(hits.drop_last().push(x) =~= hits);
    }
}

} // verus!
