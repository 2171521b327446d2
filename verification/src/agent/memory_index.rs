//! The index of a memory corpus: one line per entry, under a fixed header.

use vstd::prelude::*;
use vstd::string::*;

use super::memory::{is_slug, is_valid_slug};
use super::memory_corpus::{slug_order, CorpusAbs, MemoryCorpus};
use super::memory_entry::{
    unlines, IndexLine, IndexLineAbs, IndexParseError, IndexParseErrorAbs, INDEX_HEADER,
};
use crate::text::{
    chars_of, cut, decimal, decimal_text, ends, ends_with, lines, lines_of, number_in,
    parse_number, pieces, rcut, rsplit_once, split_once, strip_prefix, strip_suffix,
    without_prefix, without_suffix,
};
use crate::value::{contents, contents_push, result_abs, Abstract};

verus! {

/// The path of an entry.
pub open spec fn entry_path(slug: Seq<char>) -> Seq<char> {
    "entries/"@ + slug + ".md"@
}

/// One body line of the index, without its line feed.
pub open spec fn index_line_text(line: IndexLineAbs) -> Seq<char> {
    "- "@ + line.slug + " — "@ + line.title + " ("@ + decimal(line.claims as nat) + " claims) — "@
        + line.path
}

/// The lines of the index of a corpus, in slug order.
pub open spec fn corpus_index(corpus: CorpusAbs) -> Seq<IndexLineAbs> {
    let slugs = slug_order(corpus);
    Seq::new(
        slugs.len(),
        |i: int|
            IndexLineAbs {
                slug: slugs[i],
                title: corpus[slugs[i]].title,
                claims: corpus[slugs[i]].claims.len() as usize,
                path: entry_path(slugs[i]),
            },
    )
}

/// The text of body lines.
pub open spec fn index_body(lines: Seq<IndexLineAbs>) -> Seq<char> {
    unlines(Seq::new(lines.len(), |i: int| index_line_text(lines[i])))
}

/// The text of an index: the header, and a line for each entry.
pub open spec fn index_text(lines: Seq<IndexLineAbs>) -> Seq<char> {
    INDEX_HEADER@ + index_body(lines)
}

proof fn lemma_body_push(lines: Seq<IndexLineAbs>, line: IndexLineAbs)
    ensures
        index_body(lines.push(line)) == index_body(lines) + index_line_text(line) + seq!['\n'],
{
    let all = lines.push(line);
    let texts = Seq::new(all.len(), |i: int| index_line_text(all[i]));
    assert(texts.drop_last() =~= Seq::new(lines.len(), |i: int| index_line_text(lines[i])));
}

/// Render one index body line exactly as `MemoryCorpus::render_index` emits it.
pub fn render_index_line(line: &IndexLine) -> (r: String)
    ensures
        r@ == index_line_text(line.abs()) + seq!['\n'],
{
    proof {
        reveal_strlit("\n");
        assert("\n"@ =~= seq!['\n']);
    }
    "- ".to_owned().concat(line.slug.as_str()).concat(" — ").concat(line.title.as_str()).concat(
        " (",
    ).concat(decimal_text(line.claims).as_str()).concat(" claims) — ").concat(
        line.path.as_str(),
    ).concat("\n")
}

impl MemoryCorpus {
    /// Regenerate `INDEX.md` deterministically from the corpus: the header, and
    /// one line per entry in slug order.
    pub fn render_index(&self) -> (r: String)
        requires
            self.wf(),
        ensures
            r@ == index_text(corpus_index(self@)),
    {
        let slugs: Vec<String> = self.slugs();
        let ghost index = corpus_index(self@);
        let ghost keys = slug_order(self@);
        let mut out: String = INDEX_HEADER.to_owned();
        let mut i: usize = 0;
        proof {
            assert(index.take(0) =~= Seq::<IndexLineAbs>::empty());
            assert(index_body(index.take(0)) =~= Seq::<char>::empty());
            assert(out@ =~= index_text(index.take(0)));
        }
        while i < slugs.len()
            invariant
                i <= slugs@.len(),
                self.wf(),
                keys == slug_order(self@),
                contents(slugs@) == keys,
                forall|k: int| 0 <= k < keys.len() ==> self@.contains_key(#[trigger] keys[k]),
                index == corpus_index(self@),
                out@ == index_text(index.take(i as int)),
            decreases slugs@.len() - i,
        {
            let slug: &String = &slugs[i];
            assert(keys[i as int] == slug@);
            if let Some(entry) = self.entry(slug.as_str()) {
                let line: IndexLine = IndexLine {
                    slug: slug.clone(),
                    title: entry.title.clone(),
                    claims: entry.claims.len(),
                    path: "entries/".to_owned().concat(slug.as_str()).concat(".md"),
                };
                let ghost before = out@;
                out.append(render_index_line(&line).as_str());
                proof {
                    assert(line.abs() == index[i as int]);
                    assert(index.take(i + 1) =~= index.take(i as int).push(index[i as int]));
                    lemma_body_push(index.take(i as int), index[i as int]);
                    assert(out@ =~= index_text(index.take(i + 1)));
                }
            }
            i += 1;
        }
        assert(index.take(i as int) =~= index);
        out
    }
}

/// A body line of the index as a line of its own.
pub open spec fn read_index_line(line: Seq<char>, number: usize) -> Result<
    IndexLineAbs,
    IndexParseErrorAbs,
> {
    let malformed = Err(IndexParseErrorAbs::MalformedLine { line: number, text: line });
    match without_prefix(line, "- "@) {
        None => malformed,
        Some(rest) => match rcut(rest, " — entries/"@) {
            None => malformed,
            Some((head, file)) => {
                let path = "entries/"@ + file;
                if !ends(path, ".md"@) {
                    malformed
                } else {
                    match cut(head, " — "@) {
                        None => malformed,
                        Some((slug, tail)) => if !is_slug(slug) {
                            Err(IndexParseErrorAbs::InvalidSlug { line: number, slug })
                        } else if path != entry_path(slug) {
                            Err(IndexParseErrorAbs::PathMismatch { line: number, slug, path })
                        } else {
                            match rcut(tail, " ("@) {
                                None => malformed,
                                Some((title, count)) => match without_suffix(count, " claims)"@) {
                                    None => malformed,
                                    Some(value) => match number_in(value) {
                                        None => Err(
                                            IndexParseErrorAbs::InvalidClaimCount {
                                                line: number,
                                                value,
                                            },
                                        ),
                                        Some(claims) => if title.len() == 0 {
                                            malformed
                                        } else {
                                            Ok(IndexLineAbs { slug, title, claims, path })
                                        },
                                    },
                                },
                            }
                        },
                    }
                }
            },
        },
    }
}

/// The first `n` body lines. Line numbers count the two header lines first.
pub open spec fn read_index_lines(lines: Seq<Seq<char>>, n: int) -> Result<
    Seq<IndexLineAbs>,
    IndexParseErrorAbs,
>
    decreases n,
{
    if n <= 0 {
        Ok(Seq::empty())
    } else {
        match read_index_lines(lines, n - 1) {
            Err(error) => Err(error),
            Ok(read) => match read_index_line(lines[n - 1], (n + 2) as usize) {
                Err(error) => Err(error),
                Ok(line) => Ok(read.push(line)),
            },
        }
    }
}

/// The index lines of a text: the header is required.
pub open spec fn read_index(text: Seq<char>) -> Result<Seq<IndexLineAbs>, IndexParseErrorAbs> {
    match without_prefix(text, INDEX_HEADER@) {
        None => Err(IndexParseErrorAbs::MissingHeader),
        Some(rest) => read_index_lines(lines_of(rest), lines_of(rest).len() as int),
    }
}

/// A failure among the first lines is the failure of all of them.
proof fn lemma_index_fails(lines: Seq<Seq<char>>, n: int, m: int)
    requires
        0 <= n <= m,
        read_index_lines(lines, n) is Err,
    ensures
        read_index_lines(lines, m) == read_index_lines(lines, n),
    decreases m,
{
    if n < m {
        lemma_index_fails(lines, n, m - 1);
    }
}

/// There are no more pieces than separators and one.
proof fn lemma_few_pieces(s: Seq<char>, separator: char)
    ensures
        0 < pieces(s, separator).len() <= s.len() + 1,
        pieces(s, separator).last().len() + pieces(s, separator).len() <= s.len() + 1,
    decreases s.len(),
{
    if s.len() > 0 {
        lemma_few_pieces(s.drop_last(), separator);
    }
}

fn malformed(line: &String, number: usize) -> (r: IndexParseError)
    ensures
        r.abs() == (IndexParseErrorAbs::MalformedLine { line: number, text: line@ }),
{
    IndexParseError::MalformedLine { line: number, text: line.clone() }
}

fn parse_index_line(line: &String, number: usize) -> (r: Result<IndexLine, IndexParseError>)
    ensures
        result_abs(r) == read_index_line(line@, number),
{
    let rest: String = match strip_prefix(line.as_str(), "- ") {
        Some(rest) => rest,
        None => {
            return Err(malformed(line, number));
        },
    };
    let (head, file): (String, String) = match rsplit_once(rest.as_str(), " — entries/") {
        Some(parts) => parts,
        None => {
            return Err(malformed(line, number));
        },
    };
    let path: String = "entries/".to_owned().concat(file.as_str());
    if !ends_with(path.as_str(), ".md") {
        return Err(malformed(line, number));
    }
    let (slug, tail): (String, String) = match split_once(head.as_str(), " — ") {
        Some(parts) => parts,
        None => {
            return Err(malformed(line, number));
        },
    };
    if !is_valid_slug(slug.as_str()) {
        return Err(IndexParseError::InvalidSlug { line: number, slug });
    }
    let expected: String = "entries/".to_owned().concat(slug.as_str()).concat(".md");
    if path != expected {
        return Err(IndexParseError::PathMismatch { line: number, slug, path });
    }
    let (title, count): (String, String) = match rsplit_once(tail.as_str(), " (") {
        Some(parts) => parts,
        None => {
            return Err(malformed(line, number));
        },
    };
    let value: String = match strip_suffix(count.as_str(), " claims)") {
        Some(value) => value,
        None => {
            return Err(malformed(line, number));
        },
    };
    let claims: usize = match parse_number(value.as_str()) {
        Some(claims) => claims,
        None => {
            return Err(IndexParseError::InvalidClaimCount { line: number, value });
        },
    };
    if title.as_str().is_empty() {
        return Err(malformed(line, number));
    }
    Ok(IndexLine { slug, title, claims, path })
}

/// Parse `INDEX.md`. The two `INDEX_HEADER` lines are required; every further
/// line is one `- <slug> - <title> (<n> claims) - entries/<slug>.md` bullet.
/// `parse_index(corpus.render_index())` recovers the index lines, and rendering
/// them back reproduces the text.
pub fn parse_index(text: &str) -> (r: Result<Vec<IndexLine>, IndexParseError>)
    ensures
        result_abs(r) == read_index(text@),
{
    let size: usize = chars_of(text).len();
    let rest: String = match strip_prefix(text, INDEX_HEADER) {
        Some(rest) => rest,
        None => {
            return Err(IndexParseError::MissingHeader);
        },
    };
    let body: Vec<String> = lines(rest.as_str());
    let ghost view = lines_of(rest@);
    proof {
        lemma_few_pieces(rest@, '\n');
        reveal_strlit(
            "# Memory Index\n<!-- hard budget: ≤ 40 lines total. One line per entry. Regenerate, never hand-edit semantics. -->\n",
        );
        assert(view.len() <= rest@.len());
        assert(rest@.len() + INDEX_HEADER@.len() == text@.len());
        assert(INDEX_HEADER@.len() >= 2);
    }
    let mut out: Vec<IndexLine> = Vec::new();
    let mut i: usize = 0;
    assert(contents(out@) =~= Seq::<IndexLineAbs>::empty());
    while i < body.len()
        invariant
            i <= body@.len(),
            body@.len() + 2 <= size,
            view == lines_of(rest@),
            contents(body@) == view,
            read_index_lines(view, i as int) == Ok::<_, IndexParseErrorAbs>(contents(out@)),
            without_prefix(text@, INDEX_HEADER@) == Some(rest@),
        decreases body@.len() - i,
    {
        assert(view[i as int] == body@[i as int]@);
        match parse_index_line(&body[i], i + 3) {
            Ok(line) => {
                out.push(line);
                broadcast use contents_push;

            },
            Err(error) => {
                proof {
                    lemma_index_fails(view, i + 1, view.len() as int);
                }
                return Err(error);
            },
        }
        i += 1;
    }
    Ok(out)
}

} // verus!
