//! Mail in a maildir: one message per file under `cur/` and `new/`.
use vstd::prelude::*;
use vstd::string::StringExecFns;
use crate::text::{lines, lines_chars, join, trim, has_prefix_lower, starts_with_lower, chars_of, trim_chars, string_from_chars, sub_chars, to_owned_string};
use crate::time::{rfc2822_instant, parse_rfc2822};
use crate::schema::document::Document;
use crate::engine::query::strings_view;
use crate::connector::{ConnectorError, Timestamp, instant_of, to_instant, FetchContext, unchanged_since};

verus! {

broadcast use vstd::string::group_string_axioms;

/// The connector for a maildir at `path`.
#[derive(Debug, Clone, PartialEq, Eq)]
pub struct MaildirConnector {
    pub path: String,
}

impl MaildirConnector {
    pub fn new(path: String) -> (c: Self)
        ensures
            c.path@ == path@,
    {
        Self { path }
    }

    /// The kind of source this connector reads.
    pub fn source_type(&self) -> (s: &'static str)
        ensures
            s@ == "maildir"@,
    {
        "maildir"
    }

    /// The error of a maildir path that does not exist.
    pub fn missing_path_error(&self) -> (e: ConnectorError)
        ensures
            e matches ConnectorError::Config(m) && m@ == "Maildir path does not exist: "@ + self.path@,
    {
        let mut m = to_owned_string("Maildir path does not exist: ");
        m.append(self.path.as_str());
        ConnectorError::Config(m)
    }
}

/// What the headers of a message give: subject, sender, date, and the line
/// where the body starts.
pub struct EmailHeaders {
    pub subject: Seq<char>,
    pub from: Option<Seq<char>>,
    pub date: Option<Timestamp>,
    pub body_start: nat,
}

/// The headers as read so far, updated by one header line. Header names are
/// matched without regard to ASCII letter case, which is what matching the
/// lower-cased line gives for these names.
pub open spec fn read_header(st: EmailHeaders, line: Seq<char>) -> EmailHeaders {
    if has_prefix_lower(line, "subject:"@) {
        EmailHeaders { subject: trim(line.skip(8)), ..st }
    } else if has_prefix_lower(line, "from:"@) {
        EmailHeaders { from: Some(trim(line.skip(5))), ..st }
    } else if has_prefix_lower(line, "date:"@) {
        EmailHeaders { date: instant_of(rfc2822_instant(trim(line.skip(5)))), ..st }
    } else {
        st
    }
}

/// The headers of the lines from `i` on: reading stops at the first empty
/// line, and the body starts after it.
pub open spec fn scan_headers(ls: Seq<Seq<char>>, i: int, st: EmailHeaders) -> EmailHeaders
    decreases ls.len() - i,
{
    if i < 0 || i >= ls.len() {
        st
    } else if ls[i].len() == 0 {
        EmailHeaders { body_start: (i + 1) as nat, ..st }
    } else {
        scan_headers(ls, i + 1, read_header(st, ls[i]))
    }
}

/// The headers of a message: subject `(no subject)`, no sender, no date and
/// the body from the first line, until lines say otherwise.
pub open spec fn email_headers(raw: Seq<char>) -> EmailHeaders {
    scan_headers(
        lines(raw),
        0,
        EmailHeaders { subject: "(no subject)"@, from: None, date: None, body_start: 0 },
    )
}

/// The body of a message: its lines from the body start, joined by line feeds.
pub open spec fn email_body(raw: Seq<char>) -> Seq<char> {
    join(lines(raw).skip(email_headers(raw).body_start as int), "\n"@)
}

/// The subject, sender, date and body of a message.
pub fn parse_simple_email(raw: &str) -> (r: (String, Option<String>, Option<Timestamp>, String))
    ensures
        r.0@ == email_headers(raw@).subject,
        match r.1 {
            Some(f) => email_headers(raw@).from == Some(f@),
            None => email_headers(raw@).from is None,
        },
        r.2 == email_headers(raw@).date,
        r.3@ == email_body(raw@),
{
    let chars = chars_of(raw);
    let ls = lines_chars(&chars);
    let ghost lv = lines(raw@);
    let mut subject = to_owned_string("(no subject)");
    let mut from: Option<String> = None;
    let mut date: Option<Timestamp> = None;
    let mut body_start: usize = 0;
    let mut i: usize = 0;
    let mut ended = false;
    proof {
        reveal_strlit("subject:");
        reveal_strlit("from:");
        reveal_strlit("date:");
    }
    while i < ls.len() && !ended
        invariant
            ls@.len() == lv.len(),
            forall|k: int| 0 <= k < ls@.len() ==> #[trigger] ls@[k]@ == lv[k],
            i <= ls@.len(),
            body_start <= ls@.len(),
            ({
                let st = EmailHeaders {
                    subject: subject@,
                    from: match from {
                        Some(f) => Some(f@),
                        None => None,
                    },
                    date,
                    body_start: body_start as nat,
                };
                if ended {
                    st == email_headers(raw@)
                } else {
                    body_start == 0 && scan_headers(lv, i as int, st) == email_headers(raw@)
                }
            }),
        decreases ls@.len() - i,
    {
        proof {
            reveal_strlit("subject:");
            reveal_strlit("from:");
            reveal_strlit("date:");
        }
        let line = &ls[i];
        if line.len() == 0 {
            body_start = i + 1;
            ended = true;
        } else if starts_with_lower(line, "subject:") {
            subject = string_from_chars(trim_chars(&sub_chars(line, 8, line.len())));
            assert(line@.subrange(8, line@.len() as int) =~= line@.skip(8));
        } else if starts_with_lower(line, "from:") {
            from = Some(string_from_chars(trim_chars(&sub_chars(line, 5, line.len()))));
            assert(line@.subrange(5, line@.len() as int) =~= line@.skip(5));
        } else if starts_with_lower(line, "date:") {
            let date_str = string_from_chars(trim_chars(&sub_chars(line, 5, line.len())));
            assert(line@.subrange(5, line@.len() as int) =~= line@.skip(5));
            date = to_instant(parse_rfc2822(date_str.as_str()));
        }
        i += 1;
    }
    // The body: the lines from `body_start` on, joined by line feeds.
    let mut body: Vec<char> = Vec::new();
    let mut k = body_start;
    assert(lv.subrange(body_start as int, k as int) =~= Seq::<Seq<char>>::empty());
    while k < ls.len()
        invariant
            ls@.len() == lv.len(),
            forall|j: int| 0 <= j < ls@.len() ==> #[trigger] ls@[j]@ == lv[j],
            body_start <= k <= ls@.len(),
            body@ == join(lv.subrange(body_start as int, k as int), "\n"@),
        decreases ls@.len() - k,
    {
        let ghost prev = lv.subrange(body_start as int, k as int);
        assert(lv.subrange(body_start as int, k + 1).drop_last() =~= prev);
        assert(lv.subrange(body_start as int, k + 1).last() == lv[k as int]);
        if k > body_start {
            body.push('\n');
        }
        let line = &ls[k];
        let mut j: usize = 0;
        let ghost before = body@;
        while j < line.len()
            invariant
                j <= line@.len(),
                body@ == before + line@.take(j as int),
            decreases line@.len() - j,
        {
            body.push(line[j]);
            j += 1;
            assert(body@ =~= before + line@.take(j as int));
        }
        proof {
            reveal_strlit("\n");
            assert(line@.take(j as int) =~= line@);
            if k > body_start {
                assert(before =~= join(prev, "\n"@) + "\n"@);
            } else {
                assert(prev.len() == 0);
                assert(before =~= Seq::<char>::empty());
            }
            assert(body@ =~= join(lv.subrange(body_start as int, k + 1), "\n"@));
        }
        k += 1;
    }
    assert(lv.subrange(body_start as int, k as int) =~= lv.skip(body_start as int));
    (subject, from, date, string_from_chars(body))
}

/// Whether `d` is the document a message gives: the file name as id, the
/// subject as title, the body as content, the sender as author, the date (or
/// `now` when it has none) as creation and update time, the tag `email`.
pub open spec fn mail_document(d: Document, filename: Seq<char>, raw: Seq<char>, now: Timestamp) -> bool {
    let h = email_headers(raw);
    let t = match h.date {
        Some(t) => t,
        None => now,
    };
    &&& d.source@ == "maildir"@
    &&& d.source_id@ == filename
    &&& d.title@ == h.subject
    &&& d.content@ == email_body(raw)
    &&& d.url matches Some(u) && u@ == "maildir://"@ + filename
    &&& match d.author {
        Some(a) => h.from == Some(a@),
        None => h.from is None,
    }
    &&& d.created_at == t
    &&& d.updated_at == t
    &&& strings_view(d.tags@) == seq!["email"@]
    &&& d.project is None
}

impl MaildirConnector {
    /// The document that the message file `filename` with text `raw` gives.
    pub fn mail_to_document(&self, filename: &str, raw: &str, now: Timestamp) -> (d: Document)
        ensures
            mail_document(d, filename@, raw@, now),
    {
        let (subject, from, date, body) = parse_simple_email(raw);
        let created_at = match date {
            Some(t) => t,
            None => now,
        };
        let mut url = to_owned_string("maildir://");
        url.append(filename);
        let mut tags: Vec<String> = Vec::new();
        tags.push(to_owned_string("email"));
        assert(strings_view(tags@) =~= seq!["email"@]);
        Document {
            source: to_owned_string("maildir"),
            source_id: to_owned_string(filename),
            title: subject,
            content: body,
            url: Some(url),
            author: from,
            created_at,
            updated_at: created_at,
            tags,
            project: None,
        }
    }
}

} // verus!

verus! {

proof fn lemma_scan_stops(ls: Seq<Seq<char>>, i: int, k: int, st: EmailHeaders)
    requires
        0 <= i <= k < ls.len(),
        ls[k].len() == 0,
        forall|j: int| i <= j < k ==> (#[trigger] ls[j]).len() > 0,
    ensures
        scan_headers(ls, i, st).body_start == k + 1,
    decreases k - i,
{
    if i < k {
        lemma_scan_stops(ls, i + 1, k, read_header(st, ls[i]));
    }
}

proof fn lemma_scan_runs_out(ls: Seq<Seq<char>>, i: int, st: EmailHeaders)
    requires
        0 <= i <= ls.len(),
        forall|j: int| i <= j < ls.len() ==> (#[trigger] ls[j]).len() > 0,
    ensures
        scan_headers(ls, i, st).body_start == st.body_start,
    decreases ls.len() - i,
{
    if i < ls.len() {
        lemma_scan_runs_out(ls, i + 1, read_header(st, ls[i]));
    }
}

/// The headers end at the first empty line and the body is every line after
/// it; a message without an empty line is all body.
pub proof fn law_body_follows_first_blank_line(raw: Seq<char>)
    ensures
        forall|k: int|
            0 <= k < lines(raw).len() && (#[trigger] lines(raw)[k]).len() == 0 && (forall|j: int|
                0 <= j < k ==> (#[trigger] lines(raw)[j]).len() > 0) ==> email_body(raw) == join(
                lines(raw).skip(k + 1),
                "\n"@,
            ),
        (forall|j: int| 0 <= j < lines(raw).len() ==> (#[trigger] lines(raw)[j]).len() > 0)
            ==> email_body(raw) == join(lines(raw), "\n"@),
{
    let ls = lines(raw);
    let st0 = EmailHeaders { subject: "(no subject)"@, from: None, date: None, body_start: 0 };
    assert forall|k: int|
        0 <= k < ls.len() && (#[trigger] ls[k]).len() == 0 && (forall|j: int|
            0 <= j < k ==> (#[trigger] ls[j]).len() > 0) implies email_body(raw) == join(
        ls.skip(k + 1),
        "\n"@,
    ) by {
        lemma_scan_stops(ls, 0, k, st0);
    }
    if forall|j: int| 0 <= j < ls.len() ==> (#[trigger] ls[j]).len() > 0 {
        lemma_scan_runs_out(ls, 0, st0);
        assert(ls.skip(0) =~= ls);
    }
}

} // verus!

verus! {

/// A message file found in `cur/` or `new/`, as a fetch sees it: its name,
/// its modification time where known, its text where it was read, and the
/// time it was read (a message without a date takes it).
#[derive(Debug, Clone, PartialEq, Eq)]
pub struct MailFile {
    pub filename: String,
    pub modified: Option<Timestamp>,
    pub content: Option<String>,
    pub read_at: Timestamp,
}

/// The files of a listing that give documents, in order: those a fetch with
/// `ctx` does not pass over as unchanged and whose text could be read.
pub open spec fn yielding_mails(files: Seq<MailFile>, ctx: FetchContext) -> Seq<MailFile>
    decreases files.len(),
{
    if files.len() == 0 {
        Seq::empty()
    } else {
        let rest = yielding_mails(files.drop_last(), ctx);
        let f = files.last();
        if !unchanged_since(ctx, f.modified) && f.content is Some {
            rest.push(f)
        } else {
            rest
        }
    }
}

/// The files of `files` that a fetch with `ctx` does not pass over, in order.
pub open spec fn changed_mails(files: Seq<MailFile>, ctx: FetchContext) -> Seq<MailFile>
    decreases files.len(),
{
    if files.len() == 0 {
        Seq::empty()
    } else {
        let rest = changed_mails(files.drop_last(), ctx);
        if unchanged_since(ctx, files.last().modified) {
            rest
        } else {
            rest.push(files.last())
        }
    }
}

/// Whether `d` is the document of the message file `f`, which was read.
pub open spec fn mail_gives(d: Document, f: MailFile) -> bool {
    &&& f.content is Some
    &&& mail_document(d, f.filename@, f.content.unwrap()@, f.read_at)
}

impl MaildirConnector {
    /// Whether a fetch with `ctx` reads the file: when it does not pass over
    /// the file as unchanged.
    pub fn wants(f: &MailFile, ctx: &FetchContext) -> (b: bool)
        ensures
            b == !unchanged_since(*ctx, f.modified),
    {
        !ctx.skips(f.modified)
    }

    /// The documents of a listing: one per file that gives one, in order.
    pub fn documents(&self, files: &Vec<MailFile>, ctx: &FetchContext) -> (r: Vec<Document>)
        ensures
            r@.len() == yielding_mails(files@, *ctx).len(),
            forall|i: int| 0 <= i < r@.len() ==> mail_gives(#[trigger] r@[i], yielding_mails(files@, *ctx)[i]),
    {
        let mut docs: Vec<Document> = Vec::new();
        let mut k: usize = 0;
        while k < files.len()
            invariant
                k <= files@.len(),
                docs@.len() == yielding_mails(files@.take(k as int), *ctx).len(),
                forall|i: int|
                    0 <= i < docs@.len() ==> mail_gives(
                        #[trigger] docs@[i],
                        yielding_mails(files@.take(k as int), *ctx)[i],
                    ),
            decreases files@.len() - k,
        {
            assert(files@.take(k + 1).drop_last() =~= files@.take(k as int));
            assert(files@.take(k + 1).last() == files@[k as int]);
            let f = &files[k];
            if Self::wants(f, ctx) {
                match &f.content {
                    Some(text) => {
                        docs.push(self.mail_to_document(f.filename.as_str(), text.as_str(), f.read_at));
                    },
                    None => {},
                }
            }
            k += 1;
        }
        assert(files@.take(k as int) =~= files@);
        docs
    }
}

proof fn lemma_full_keeps_all_mail(files: Seq<MailFile>, ctx: FetchContext)
    requires
        ctx.last_fetched_at is None,
    ensures
        changed_mails(files, ctx) == files,
    decreases files.len(),
{
    if files.len() > 0 {
        lemma_full_keeps_all_mail(files.drop_last(), ctx);
        assert(files.drop_last().push(files.last()) =~= files);
    }
}

proof fn lemma_mail_yield_of_changed(files: Seq<MailFile>, ctx: FetchContext, full: FetchContext)
    requires
        full.last_fetched_at is None,
    ensures
        yielding_mails(files, ctx) == changed_mails(yielding_mails(files, full), ctx),
    decreases files.len(),
{
    if files.len() > 0 {
        let rest = files.drop_last();
        let f = files.last();
        lemma_mail_yield_of_changed(rest, ctx, full);
        let y = yielding_mails(rest, full);
        if f.content is Some {
            assert(y.push(f).drop_last() =~= y);
            assert(y.push(f).last() == f);
        }
    }
}

/// An incremental fetch gives the messages of a full fetch over the same
/// listing, restricted, in the same order, to the files not modified before
/// the last fetch (or of unknown modification time); a full fetch passes
/// over no file.
pub proof fn law_incremental_mail_fetch_restricts_full(files: Seq<MailFile>, ctx: FetchContext)
    ensures
        yielding_mails(files, ctx) == changed_mails(yielding_mails(files, FetchContext { last_fetched_at: None }), ctx),
        changed_mails(files, FetchContext { last_fetched_at: None }) == files,
{
    lemma_mail_yield_of_changed(files, ctx, FetchContext { last_fetched_at: None });
    lemma_full_keeps_all_mail(files, FetchContext { last_fetched_at: None });
}

} // verus!

verus! {

/// A message's document: its id is the file name, its URL `maildir://` and
/// the file name, its only tag `email`, no project; its body the lines after
/// the first empty line; its time the message's date, or `now` when it has
/// none, both for creation and update.
pub proof fn law_mail_document_fields(d: Document, filename: Seq<char>, raw: Seq<char>, now: Timestamp)
    requires
        mail_document(d, filename, raw, now),
    ensures
        d.source_id@ == filename,
        d.url matches Some(u) && u@ == "maildir://"@ + filename,
        strings_view(d.tags@) == seq!["email"@],
        d.project is None,
        d.content@ == email_body(raw),
        email_headers(raw).date matches Some(t) ==> d.created_at == t && d.updated_at == t,
        email_headers(raw).date is None ==> d.created_at == now && d.updated_at == now,
{
}

} // verus!
