use vstd::prelude::*;
use crate::text::same_text;
use crate::lexicon::texts;
use crate::json::{
    Json, JsonView, json_view, list_view, lemma_list_view, json_of, parse_json, member, text,
    member_of, member2_of, text_of, opt_view,
};

verus! {

/// One commit of a push: its message and the paths of the files it added.
pub struct CommitEntry {
    pub message: String,
    pub added: Vec<String>,
}

/// One push of activity: the full name of the repository (`owner/name` when
/// well formed) and its commits.
pub struct ActivityRecord {
    pub repo: String,
    pub commits: Vec<CommitEntry>,
}

pub struct CommitView {
    pub message: Seq<char>,
    pub added: Seq<Seq<char>>,
}

pub struct RecordView {
    pub repo: Seq<char>,
    pub commits: Seq<CommitView>,
}

impl View for CommitEntry {
    type V = CommitView;

    open spec fn view(&self) -> CommitView {
        CommitView { message: self.message@, added: texts(self.added@) }
    }
}

impl View for ActivityRecord {
    type V = RecordView;

    open spec fn view(&self) -> RecordView {
        RecordView { repo: self.repo@, commits: self.commits@.map_values(|c: CommitEntry| c@) }
    }
}

/// The bytes that gzip decoding of a shard yields, up to its end or to the
/// first point where the stream turns out broken.
pub uninterp spec fn gunzip_of(b: Seq<u8>) -> Seq<u8>;

/// Relies on flate2's `read::GzDecoder` read to the end with `Read::read_to_end`:
/// what it decodes depends on the compressed bytes alone; on a broken stream
/// the bytes decoded before the fault are kept.
#[verifier::external_body]
fn gunzip(b: &[u8]) -> (r: Vec<u8>)
    ensures
        r@ == gunzip_of(b@),
{
    let mut out = Vec::new();
    let _ = std::io::Read::read_to_end(&mut flate2::read::GzDecoder::new(b), &mut out);
    out
}

/// The bytes of lines, each followed by a line feed.
pub open spec fn terminated(ls: Seq<Seq<u8>>) -> Seq<u8>
    decreases ls.len(),
{
    if ls.len() == 0 {
        seq![]
    } else {
        terminated(ls.drop_last()) + ls.last() + seq![10u8]
    }
}

pub open spec fn line_views(v: Seq<Vec<u8>>) -> Seq<Seq<u8>> {
    v.map_values(|l: Vec<u8>| l@)
}

/// Splits bytes into lines at each line feed. A last line without a line
/// feed counts too; an empty remainder after the last line feed does not.
pub fn split_lines(data: &Vec<u8>) -> (r: Vec<Vec<u8>>)
    ensures
        forall|k: int, i: int| 0 <= k < r@.len() && 0 <= i < r@[k]@.len() ==> r@[k]@[i] != 10u8,
        terminated(line_views(r@)) == if data@.len() == 0 || data@.last() == 10u8 {
            data@
        } else {
            data@.push(10u8)
        },
{
    let mut out: Vec<Vec<u8>> = Vec::new();
    let mut cur: Vec<u8> = Vec::new();
    let mut i: usize = 0;
    proof {
        assert(terminated(line_views(out@)) + cur@ =~= data@.subrange(0, 0));
    }
    while i < data.len()
        invariant
            i <= data@.len(),
            terminated(line_views(out@)) + cur@ == data@.subrange(0, i as int),
            forall|j: int| 0 <= j < cur@.len() ==> cur@[j] != 10u8,
            cur@.len() == 0 ==> (i == 0 || data@[i - 1] == 10u8),
            forall|k: int, j: int| 0 <= k < out@.len() && 0 <= j < out@[k]@.len() ==> out@[k]@[j] != 10u8,
        decreases data@.len() - i,
    {
        let b = data[i];
        if b == 10u8 {
            let ghost pre = out@;
            let ghost line = cur@;
            out.push(cur);
            cur = Vec::new();
            proof {
                assert(line_views(out@) =~= line_views(pre).push(line));
                lemma_terminated_push(line_views(pre), line);
                assert(data@.subrange(0, i as int + 1) =~= data@.subrange(0, i as int).push(10u8));
                assert(terminated(line_views(out@)) + cur@ =~= data@.subrange(0, i as int + 1));
            }
        } else {
            let ghost pre = cur@;
            cur.push(b);
            proof {
                assert(terminated(line_views(out@)) + cur@ =~= data@.subrange(0, i as int + 1));
            }
        }
        i = i + 1;
    }
    assert(data@.subrange(0, data@.len() as int) =~= data@);
    if cur.len() > 0 {
        let ghost pre = out@;
        let ghost line = cur@;
        out.push(cur);
        proof {
            assert(line_views(out@) =~= line_views(pre).push(line));
            lemma_terminated_push(line_views(pre), line);
            assert(line[line.len() - 1] == data@.last());
            assert(terminated(line_views(out@)) =~= data@.push(10u8));
        }
    } else {
        assert(terminated(line_views(out@)) =~= data@);
    }
    out
}

/// The strings among some JSON values, in order.
pub open spec fn strings_of(xs: Seq<JsonView>) -> Seq<Seq<char>>
    decreases xs.len(),
{
    if xs.len() == 0 {
        seq![]
    } else {
        match xs.last() {
            JsonView::Str(t) => strings_of(xs.drop_last()).push(t),
            _ => strings_of(xs.drop_last()),
        }
    }
}

/// The commit that a JSON commit gives: one with a string `message`, whose
/// added paths are the strings of its `added` array (none without one).
pub open spec fn commit_of(c: JsonView) -> Option<CommitView> {
    match text_of(member_of(c, "message"@)) {
        Some(m) => Some(
            CommitView {
                message: m,
                added: match member_of(c, "added"@) {
                    Some(JsonView::Array(xs)) => strings_of(xs),
                    _ => seq![],
                },
            },
        ),
        None => None,
    }
}

/// The commits that a list of JSON commits gives, in order, those without
/// a string message left out.
pub open spec fn commits_of(cs: Seq<JsonView>) -> Seq<CommitView>
    decreases cs.len(),
{
    if cs.len() == 0 {
        seq![]
    } else {
        match commit_of(cs.last()) {
            Some(c) => commits_of(cs.drop_last()).push(c),
            None => commits_of(cs.drop_last()),
        }
    }
}

/// The record that a parsed line gives: only a JSON object whose `type` is
/// the string `PushEvent` and whose `repo.name` is a string gives one; its
/// commits come from `payload.commits` (none where that is no array).
pub open spec fn push_record(doc: Option<JsonView>) -> Option<RecordView> {
    match doc {
        None => None,
        Some(d) => if text_of(member_of(d, "type"@)) == Some("PushEvent"@) {
            match text_of(member2_of(member_of(d, "repo"@), "name"@)) {
                Some(n) => Some(
                    RecordView {
                        repo: n,
                        commits: match member2_of(member_of(d, "payload"@), "commits"@) {
                            Some(JsonView::Array(cs)) => commits_of(cs),
                            _ => seq![],
                        },
                    },
                ),
                None => None,
            }
        } else {
            None
        },
    }
}

/// The records that some lines give, in order.
pub open spec fn pushes_of(lines: Seq<Seq<u8>>) -> Seq<RecordView>
    decreases lines.len(),
{
    if lines.len() == 0 {
        seq![]
    } else {
        match push_record(json_of(lines.last())) {
            Some(r) => pushes_of(lines.drop_last()).push(r),
            None => pushes_of(lines.drop_last()),
        }
    }
}

/// `lines` are the lines of `data`: none holds a line feed, and each
/// followed by one they make up `data`, with a line feed added at its end
/// where it has none.
pub open spec fn lines_of(lines: Seq<Seq<u8>>, data: Seq<u8>) -> bool {
    &&& forall|k: int, i: int| 0 <= k < lines.len() && 0 <= i < lines[k].len() ==> lines[k][i] != 10u8
    &&& terminated(lines) == if data.len() == 0 || data.last() == 10u8 {
        data
    } else {
        data.push(10u8)
    }
}

pub open spec fn record_views(v: Seq<ActivityRecord>) -> Seq<RecordView> {
    v.map_values(|r: ActivityRecord| r@)
}

/// The strings of a JSON array; none for anything else.
fn added_paths(j: Option<&Json>) -> (r: Vec<String>)
    ensures
        texts(r@) == match opt_view(j) {
            Some(JsonView::Array(xs)) => strings_of(xs),
            _ => seq![],
        },
{
    let mut out: Vec<String> = Vec::new();
    match j {
        Some(Json::Array(items)) => {
            let ghost lv = list_view(items@);
            proof {
                lemma_list_view(items@);
                assert(opt_view(j) == Some(JsonView::Array(lv)));
                assert(lv.take(0) =~= seq![]);
                assert(texts(out@) =~= seq![]);
            }
            let mut k: usize = 0;
            while k < items.len()
                invariant
                    k <= items@.len(),
                    lv == list_view(items@),
                    lv.len() == items@.len(),
                    forall|i: int| 0 <= i < items@.len() ==> #[trigger] lv[i] == json_view(items@[i]),
                    texts(out@) == strings_of(lv.take(k as int)),
                decreases items@.len() - k,
            {
                let ghost pre = out@;
                assert(lv.take(k as int + 1).drop_last() =~= lv.take(k as int));
                assert(lv.take(k as int + 1).last() == json_view(items@[k as int]));
                match &items[k] {
                    Json::Str(t) => {
                        out.push(t.clone());
                        assert(texts(out@) =~= texts(pre).push(t@));
                    },
                    _ => {},
                }
                k = k + 1;
            }
            assert(lv.take(items@.len() as int) =~= lv);
        },
        _ => {
            assert(texts(out@) =~= seq![]);
        },
    }
    out
}

/// The commit of one JSON commit: `None` without a string message.
fn commit_entry(c: &Json) -> (r: Option<CommitEntry>)
    ensures
        match r {
            Some(e) => commit_of(json_view(*c)) == Some(e@),
            None => commit_of(json_view(*c)) is None,
        },
{
    let message = match text(member(c, "message")) {
        Some(t) => t.clone(),
        None => return None,
    };
    let added = added_paths(member(c, "added"));
    Some(CommitEntry { message, added })
}

/// The commits of a JSON array of commits, in order; none for anything else.
fn commit_list(j: Option<&Json>) -> (r: Vec<CommitEntry>)
    ensures
        r@.map_values(|c: CommitEntry| c@) == match opt_view(j) {
            Some(JsonView::Array(cs)) => commits_of(cs),
            _ => seq![],
        },
{
    let mut out: Vec<CommitEntry> = Vec::new();
    match j {
        Some(Json::Array(items)) => {
            let ghost lv = list_view(items@);
            proof {
                lemma_list_view(items@);
                assert(opt_view(j) == Some(JsonView::Array(lv)));
                assert(out@.map_values(|c: CommitEntry| c@) =~= commits_of(lv.take(0)));
            }
            let mut k: usize = 0;
            while k < items.len()
                invariant
                    k <= items@.len(),
                    lv == list_view(items@),
                    lv.len() == items@.len(),
                    forall|i: int| 0 <= i < items@.len() ==> #[trigger] lv[i] == json_view(items@[i]),
                    out@.map_values(|c: CommitEntry| c@) == commits_of(lv.take(k as int)),
                decreases items@.len() - k,
            {
                let ghost pre = out@;
                assert(lv.take(k as int + 1).drop_last() =~= lv.take(k as int));
                assert(lv.take(k as int + 1).last() == json_view(items@[k as int]));
                match commit_entry(&items[k]) {
                    Some(e) => {
                        let ghost ev = e@;
                        out.push(e);
                        assert(out@.map_values(|c: CommitEntry| c@) =~= pre.map_values(
                            |c: CommitEntry| c@,
                        ).push(ev));
                    },
                    None => {},
                }
                k = k + 1;
            }
            assert(lv.take(items@.len() as int) =~= lv);
        },
        _ => {
            assert(out@.map_values(|c: CommitEntry| c@) =~= seq![]);
        },
    }
    out
}

/// Tells whether an event type is the one that carries commits.
pub fn is_push_type(kind: &str) -> (r: bool)
    ensures
        r == (kind@ == "PushEvent"@),
{
    same_text(kind, "PushEvent")
}

/// The activity record of one line of a shard: `None` where the line is
/// no JSON, is not a push, or names no repository.
pub fn parse_line(line: &Vec<u8>) -> (r: Option<ActivityRecord>)
    ensures
        match r {
            Some(rec) => push_record(json_of(line@)) == Some(rec@),
            None => push_record(json_of(line@)) is None,
        },
{
    let doc = match parse_json(line.as_slice()) {
        Some(d) => d,
        None => return None,
    };
    match text(member(&doc, "type")) {
        Some(kind) => if !is_push_type(kind.as_str()) {
            return None;
        },
        None => return None,
    }
    let repo = match member(&doc, "repo") {
        Some(r) => match text(member(r, "name")) {
            Some(n) => n.clone(),
            None => return None,
        },
        None => return None,
    };
    let commits = match member(&doc, "payload") {
        Some(p) => commit_list(member(p, "commits")),
        None => commit_list(None),
    };
    Some(ActivityRecord { repo, commits })
}

/// Decompresses a shard and parses each of its lines, keeping the records
/// of the push lines in order and dropping every other line.
pub fn parse_push_events(compressed: &Vec<u8>) -> (r: Vec<ActivityRecord>)
    ensures
        exists|ls: Seq<Seq<u8>>|
            lines_of(ls, gunzip_of(compressed@)) && record_views(r@) == pushes_of(ls),
{
    let data = gunzip(compressed.as_slice());
    parse_lines(&data)
}

/// Parses each line of decompressed shard bytes, keeping the records of the
/// push lines in order and dropping every other line.
pub fn parse_lines(data: &Vec<u8>) -> (r: Vec<ActivityRecord>)
    ensures
        exists|ls: Seq<Seq<u8>>| lines_of(ls, data@) && record_views(r@) == pushes_of(ls),
{
    let lines = split_lines(data);
    let ghost lv = line_views(lines@);
    proof {
        assert forall|k: int| 0 <= k < lines@.len() implies #[trigger] lv[k] == lines@[k]@ by {}
        assert(lines_of(lv, data@));
        assert(record_views(Seq::empty()) =~= pushes_of(lv.take(0)));
    }
    let mut out: Vec<ActivityRecord> = Vec::new();
    let mut k: usize = 0;
    while k < lines.len()
        invariant
            k <= lines@.len(),
            lv == line_views(lines@),
            lv.len() == lines@.len(),
            forall|i: int| 0 <= i < lines@.len() ==> #[trigger] lv[i] == lines@[i]@,
            record_views(out@) == pushes_of(lv.take(k as int)),
        decreases lines@.len() - k,
    {
        let ghost pre = out@;
        assert(lv.take(k as int + 1).drop_last() =~= lv.take(k as int));
        assert(lv.take(k as int + 1).last() == lines@[k as int]@);
        match parse_line(&lines[k]) {
            Some(rec) => {
                let ghost rv = rec@;
                out.push(rec);
                assert(record_views(out@) =~= record_views(pre).push(rv));
            },
            None => {},
        }
        k = k + 1;
    }
    assert(lv.take(lines@.len() as int) =~= lv);
    out
}

proof fn lemma_terminated_push(ls: Seq<Seq<u8>>, l: Seq<u8>)
    ensures
        terminated(ls.push(l)) == terminated(ls) + l + seq![10u8],
{
    assert(ls.push(l).drop_last() =~= ls);
}

} // verus!
