//! Markdown files under a local directory.
use vstd::prelude::*;
use vstd::string::StringExecFns;
use crate::text::{to_owned_string, str_equal, replace_all, replace_char};
use crate::schema::document::Document;
use crate::engine::query::strings_view;
use crate::connector::{ConnectorError, Timestamp, FetchContext, unchanged_since};

verus! {

broadcast use vstd::string::group_string_axioms;

/// The connector for the markdown files under `root_dir`.
#[derive(Debug, Clone, PartialEq, Eq)]
pub struct LocalMarkdownConnector {
    pub root_dir: String,
}

/// Whether a file extension marks a markdown file.
pub open spec fn is_markdown_ext(ext: Option<Seq<char>>) -> bool {
    match ext {
        Some(e) => e == "md"@ || e == "markdown"@,
        None => false,
    }
}

/// Whether `d` is the document of the markdown file at `relative` (its path
/// under the root), with file stem `stem`: the path with `/` separators as id,
/// the stem (or `untitled`) as title, a `file:///` URL, no author, tags or
/// project.
pub open spec fn markdown_document(
    d: Document,
    relative: Seq<char>,
    stem: Option<Seq<char>>,
    content: Seq<char>,
    created_at: Timestamp,
    updated_at: Timestamp,
) -> bool {
    let id = replace_char(relative, '\\', '/');
    &&& d.source@ == "local_markdown"@
    &&& d.source_id@ == id
    &&& d.title@ == match stem {
        Some(s) => s,
        None => "untitled"@,
    }
    &&& d.content@ == content
    &&& d.url matches Some(u) && u@ == "file:///"@ + id
    &&& d.author is None
    &&& d.created_at == created_at
    &&& d.updated_at == updated_at
    &&& d.tags@.len() == 0
    &&& d.project is None
}

impl LocalMarkdownConnector {
    pub fn new(root_dir: String) -> (c: Self)
        ensures
            c.root_dir@ == root_dir@,
    {
        Self { root_dir }
    }

    /// The kind of source this connector reads.
    pub fn source_type(&self) -> (s: &'static str)
        ensures
            s@ == "local_markdown"@,
    {
        "local_markdown"
    }

    /// The error of a root directory that does not exist.
    pub fn missing_root_error(&self) -> (e: ConnectorError)
        ensures
            e matches ConnectorError::Config(m) && m@ == "Directory does not exist: "@ + self.root_dir@,
    {
        let mut m = to_owned_string("Directory does not exist: ");
        m.append(self.root_dir.as_str());
        ConnectorError::Config(m)
    }

    /// Whether a file with this extension is read.
    pub fn is_markdown_file(ext: Option<&str>) -> (b: bool)
        ensures
            b == is_markdown_ext(match ext {
                Some(e) => Some(e@),
                None => None,
            }),
    {
        match ext {
            Some(e) => str_equal(e, "md") || str_equal(e, "markdown"),
            None => false,
        }
    }

    /// The document of a markdown file, as `markdown_document` states it.
    pub fn file_document(
        &self,
        relative: &str,
        stem: Option<String>,
        content: String,
        created_at: Timestamp,
        updated_at: Timestamp,
    ) -> (d: Document)
        ensures
            markdown_document(
                d,
                relative@,
                match stem {
                    Some(s) => Some(s@),
                    None => None,
                },
                content@,
                created_at,
                updated_at,
            ),
    {
        let source_id = replace_all(relative, '\\', '/');
        let mut url = to_owned_string("file:///");
        url.append(source_id.as_str());
        let title = match stem {
            Some(s) => s,
            None => to_owned_string("untitled"),
        };
        Document {
            source: to_owned_string("local_markdown"),
            source_id,
            title,
            content,
            url: Some(url),
            author: None,
            created_at,
            updated_at,
            tags: Vec::new(),
            project: None,
        }
    }
}

} // verus!

verus! {

/// A file found under the root, as a fetch sees it: its path under the root,
/// its stem and extension, its modification time where known, its text where
/// it was read, and the creation and update times its document takes.
#[derive(Debug, Clone, PartialEq, Eq)]
pub struct MarkdownFile {
    pub relative: String,
    pub stem: Option<String>,
    pub extension: Option<String>,
    pub modified: Option<Timestamp>,
    pub content: Option<String>,
    pub created_at: Timestamp,
    pub updated_at: Timestamp,
}

pub open spec fn opt_chars(o: Option<String>) -> Option<Seq<char>> {
    match o {
        Some(s) => Some(s@),
        None => None,
    }
}

/// Whether a fetch with `ctx` reads the file: a markdown file that the fetch
/// does not pass over as unchanged.
pub open spec fn wanted(f: MarkdownFile, ctx: FetchContext) -> bool {
    is_markdown_ext(opt_chars(f.extension)) && !unchanged_since(ctx, f.modified)
}

/// The files of a listing that give documents, in order: those wanted whose
/// text could be read.
pub open spec fn yielding_files(files: Seq<MarkdownFile>, ctx: FetchContext) -> Seq<MarkdownFile>
    decreases files.len(),
{
    if files.len() == 0 {
        Seq::empty()
    } else {
        let rest = yielding_files(files.drop_last(), ctx);
        let f = files.last();
        if wanted(f, ctx) && f.content is Some {
            rest.push(f)
        } else {
            rest
        }
    }
}

/// The files of `files` that a fetch with `ctx` does not pass over as
/// unchanged, in order.
pub open spec fn changed_files(files: Seq<MarkdownFile>, ctx: FetchContext) -> Seq<MarkdownFile>
    decreases files.len(),
{
    if files.len() == 0 {
        Seq::empty()
    } else {
        let rest = changed_files(files.drop_last(), ctx);
        if unchanged_since(ctx, files.last().modified) {
            rest
        } else {
            rest.push(files.last())
        }
    }
}

/// Whether `d` is the document of the file `f`, which was read.
pub open spec fn file_gives(d: Document, f: MarkdownFile) -> bool {
    &&& f.content is Some
    &&& markdown_document(
        d,
        f.relative@,
        opt_chars(f.stem),
        f.content.unwrap()@,
        f.created_at,
        f.updated_at,
    )
}

fn copy_opt(o: &Option<String>) -> (r: Option<String>)
    ensures
        opt_chars(r) == opt_chars(*o),
{
    match o {
        Some(s) => Some(s.clone()),
        None => None,
    }
}

impl LocalMarkdownConnector {
    /// Whether a fetch with `ctx` reads the file, as `wanted` states it.
    pub fn wants(f: &MarkdownFile, ctx: &FetchContext) -> (b: bool)
        ensures
            b == wanted(*f, *ctx),
    {
        let md = match &f.extension {
            Some(e) => Self::is_markdown_file(Some(e.as_str())),
            None => Self::is_markdown_file(None),
        };
        md && !ctx.skips(f.modified)
    }

    /// The documents of a listing: one per file that gives one, in order.
    pub fn documents(&self, files: &Vec<MarkdownFile>, ctx: &FetchContext) -> (r: Vec<Document>)
        ensures
            r@.len() == yielding_files(files@, *ctx).len(),
            forall|i: int| 0 <= i < r@.len() ==> file_gives(#[trigger] r@[i], yielding_files(files@, *ctx)[i]),
    {
        let mut docs: Vec<Document> = Vec::new();
        let mut k: usize = 0;
        while k < files.len()
            invariant
                k <= files@.len(),
                docs@.len() == yielding_files(files@.take(k as int), *ctx).len(),
                forall|i: int|
                    0 <= i < docs@.len() ==> file_gives(
                        #[trigger] docs@[i],
                        yielding_files(files@.take(k as int), *ctx)[i],
                    ),
            decreases files@.len() - k,
        {
            assert(files@.take(k + 1).drop_last() =~= files@.take(k as int));
            assert(files@.take(k + 1).last() == files@[k as int]);
            let f = &files[k];
            if Self::wants(f, ctx) {
                match &f.content {
                    Some(text) => {
                        let d = self.file_document(
                            f.relative.as_str(),
                            copy_opt(&f.stem),
                            text.clone(),
                            f.created_at,
                            f.updated_at,
                        );
                        docs.push(d);
                    },
                    None => {},
                }
            }
            k += 1;
        }
        assert(files@.take(k as int) =~= files@);
        docs
    }
}

proof fn lemma_full_keeps_all(files: Seq<MarkdownFile>, ctx: FetchContext)
    requires
        ctx.last_fetched_at is None,
    ensures
        changed_files(files, ctx) == files,
    decreases files.len(),
{
    if files.len() > 0 {
        lemma_full_keeps_all(files.drop_last(), ctx);
        assert(files.drop_last().push(files.last()) =~= files);
    }
}

proof fn lemma_yield_of_changed(files: Seq<MarkdownFile>, ctx: FetchContext, full: FetchContext)
    requires
        full.last_fetched_at is None,
    ensures
        yielding_files(files, ctx) == changed_files(yielding_files(files, full), ctx),
    decreases files.len(),
{
    if files.len() > 0 {
        let rest = files.drop_last();
        let f = files.last();
        lemma_yield_of_changed(rest, ctx, full);
        let y = yielding_files(rest, full);
        if wanted(f, full) && f.content is Some {
            assert(y.push(f).drop_last() =~= y);
            assert(y.push(f).last() == f);
        }
    }
}

/// An incremental fetch gives the documents of a full fetch over the same
/// listing, restricted, in the same order, to the files not modified before
/// the last fetch (a file modified exactly then, or of unknown modification
/// time, is kept); and a full fetch passes over no file.
pub proof fn law_incremental_fetch_restricts_full(files: Seq<MarkdownFile>, ctx: FetchContext)
    ensures
        yielding_files(files, ctx) == changed_files(yielding_files(files, FetchContext { last_fetched_at: None }), ctx),
        changed_files(files, FetchContext { last_fetched_at: None }) == files,
{
    lemma_yield_of_changed(files, ctx, FetchContext { last_fetched_at: None });
    lemma_full_keeps_all(files, FetchContext { last_fetched_at: None });
}

} // verus!

verus! {

/// A markdown file's document: its id is the file's path under the root with
/// every backslash turned into a slash and nothing else changed; its URL is
/// `file:///` and that id; its title the file stem, `untitled` without one;
/// its content and times as given; no author, tags or project.
pub proof fn law_markdown_document_fields(
    d: Document,
    relative: Seq<char>,
    stem: Option<Seq<char>>,
    content: Seq<char>,
    created_at: Timestamp,
    updated_at: Timestamp,
)
    requires
        markdown_document(d, relative, stem, content, created_at, updated_at),
    ensures
        d.source_id@.len() == relative.len(),
        forall|i: int|
            0 <= i < relative.len() ==> #[trigger] d.source_id@[i] == (if relative[i] == '\\' {
                '/'
            } else {
                relative[i]
            }),
        d.url matches Some(u) && u@ == "file:///"@ + d.source_id@,
        stem matches Some(s) ==> d.title@ == s,
        stem is None ==> d.title@ == "untitled"@,
        d.content@ == content,
        d.created_at == created_at && d.updated_at == updated_at,
        d.author is None && d.project is None && d.tags@.len() == 0,
{
}

} // verus!
