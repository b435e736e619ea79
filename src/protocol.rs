//! The line protocol: requests and responses correlated by a caller-chosen id,
//! one message per newline-terminated line.
use vstd::prelude::*;

use crate::schema::{DevcadeGame, Tag, User};

verus! {

/// A badge reader of the cabinet.
#[derive(Debug, Clone, Copy, PartialEq, Eq, Structural)]
pub enum Player {
    P1,
    P2,
}

/// What a client asks for.
#[derive(Debug, Clone, PartialEq, Eq)]
pub enum RequestBody {
    Ping,
    GetGameList,
    GetGameListFromFs,
    GetGame(String),
    DownloadGame(String),
    DownloadIcon(String),
    DownloadBanner(String),
    LaunchGame(String),
    SetProduction(bool),
    GetTagList,
    GetTag(String),
    GetGameListFromTag(String),
    GetUser(String),
    GetNfcTag(Player),
    GetNfcUser(String),
    /// Group, key and value.
    Save(String, String, String),
    /// Group and key.
    Load(String, String),
    Flush,
}

/// A request with the id that its response must echo.
#[derive(Debug, Clone, PartialEq, Eq)]
pub struct Request {
    pub request_id: u32,
    pub body: RequestBody,
}

/// What the backend answers.
#[derive(Debug, Clone, PartialEq, Eq)]
pub enum ResponseBody {
    /// The request was carried out.
    Success,
    /// A failure, with a human-readable cause.
    Error(String),
    Pong,
    GameList(Vec<DevcadeGame>),
    Game(DevcadeGame),
    TagList(Vec<Tag>),
    Tag(Tag),
    User(User),
    /// The association handle of a badge, if one was read.
    NfcTag(Option<String>),
    /// A member record, as the text of a JSON object.
    NfcUser(String),
    /// A loaded value.
    Object(String),
}

/// A response, tagged with the id of the request it answers.
#[derive(Debug, Clone, PartialEq, Eq)]
pub struct Response {
    pub request_id: u32,
    pub body: ResponseBody,
}

/// The response to `request` with `body`: it echoes the request's id.
pub fn respond(request: &Request, body: ResponseBody) -> (r: Response)
    ensures
        r.request_id == request.request_id,
        r.body == body,
{
    Response { request_id: request.request_id, body }
}

/// Request correlation: when each of a set of requests with distinct ids is
/// answered once through `respond`, in any order, every response's id matches
/// exactly one request, the one it answers.
pub proof fn lemma_responses_correlate(requests: Seq<Request>, responses: Seq<Response>, answers: Seq<int>)
    requires
        forall|a: int, b: int|
            0 <= a < b < requests.len() ==> requests[a].request_id != requests[b].request_id,
        responses.len() == answers.len(),
        forall|j: int| 0 <= j < answers.len() ==> 0 <= #[trigger] answers[j] < requests.len(),
        forall|j: int|
            0 <= j < responses.len() ==> (#[trigger] responses[j]).request_id
                == requests[answers[j]].request_id,
    ensures
        forall|j: int, i: int|
            0 <= j < responses.len() && 0 <= i < requests.len() ==> (
            #[trigger] requests[i].request_id == #[trigger] responses[j].request_id <==> i
                == answers[j]),
{
}

/// The newline byte that ends each line.
pub const NEWLINE: u8 = 10;

/// A byte sequence without a newline.
pub open spec fn no_newline(s: Seq<u8>) -> bool {
    forall|i: int| 0 <= i < s.len() ==> s[i] != NEWLINE
}

/// The bytes of a sequence of lines, each followed by a newline.
pub open spec fn frames(lines: Seq<Seq<u8>>) -> Seq<u8>
    decreases lines.len(),
{
    if lines.len() == 0 {
        Seq::empty()
    } else {
        frames(lines.drop_last()) + lines.last().push(NEWLINE)
    }
}

/// Every line of a sequence is free of newlines.
pub open spec fn all_lines(lines: Seq<Seq<u8>>) -> bool {
    forall|i: int| 0 <= i < lines.len() ==> no_newline(#[trigger] lines[i])
}

/// A non-empty framing ends with a newline.
proof fn lemma_frames_end(lines: Seq<Seq<u8>>)
    requires
        lines.len() > 0,
    ensures
        frames(lines).len() > 0,
        frames(lines)[frames(lines).len() - 1] == NEWLINE,
{
}

/// A stream splits into newline-terminated lines and a newline-free rest in
/// one way only.
pub proof fn lemma_frames_unique(a: Seq<Seq<u8>>, ra: Seq<u8>, b: Seq<Seq<u8>>, rb: Seq<u8>)
    requires
        all_lines(a),
        all_lines(b),
        no_newline(ra),
        no_newline(rb),
        frames(a) + ra == frames(b) + rb,
    ensures
        a == b,
        ra == rb,
    decreases a.len() + b.len(),
{
    let s = frames(a) + ra;
    let fa = frames(a);
    let fb = frames(b);
    assert(s == fb + rb);
    if b.len() > 0 && fa.len() < fb.len() {
        lemma_frames_end(b);
        let k = fb.len() - 1;
        assert(s[k] == fb[k]);
        assert(s[k] == ra[k - fa.len()]);
        assert(false);
    }
    if a.len() > 0 && fb.len() < fa.len() {
        lemma_frames_end(a);
        let k = fa.len() - 1;
        assert(s[k] == fa[k]);
        assert(s[k] == rb[k - fb.len()]);
        assert(false);
    }
    if a.len() == 0 && b.len() > 0 {
        lemma_frames_end(b);
        let k = fb.len() - 1;
        assert(s[k] == fb[k]);
        assert(s[k] == ra[k]);
        assert(false);
    }
    if b.len() == 0 && a.len() > 0 {
        lemma_frames_end(a);
        let k = fa.len() - 1;
        assert(s[k] == fa[k]);
        assert(s[k] == rb[k]);
        assert(false);
    }
    if a.len() == 0 && b.len() == 0 {
        assert(ra =~= s);
        assert(rb =~= s);
    } else {
        assert(fa.len() == fb.len());
        assert(fa =~= s.subrange(0, fa.len() as int));
        assert(fb =~= s.subrange(0, fb.len() as int));
        assert(ra =~= s.subrange(fa.len() as int, s.len() as int));
        assert(rb =~= s.subrange(fb.len() as int, s.len() as int));
        let a0 = a.drop_last();
        let b0 = b.drop_last();
        assert(fa == frames(a0) + a.last().push(NEWLINE));
        assert(fb == frames(b0) + b.last().push(NEWLINE));
        assert(frames(a0) + a.last() =~= fa.drop_last());
        assert(frames(b0) + b.last() =~= fb.drop_last());
        assert(all_lines(a0)) by {
            assert forall|i: int| 0 <= i < a0.len() implies no_newline(#[trigger] a0[i]) by {
                assert(a0[i] == a[i]);
            }
        }
        assert(all_lines(b0)) by {
            assert forall|i: int| 0 <= i < b0.len() implies no_newline(#[trigger] b0[i]) by {
                assert(b0[i] == b[i]);
            }
        }
        assert(no_newline(a[a.len() - 1]));
        assert(no_newline(b[b.len() - 1]));
        lemma_frames_unique(a0, a.last(), b0, b.last());
        assert(a =~= a0.push(a.last()));
        assert(b =~= b0.push(b.last()));
    }
}

/// Non-interleaving: the bytes of whole framed lines, written one after
/// another, split back into exactly those lines, in order, and nothing else.
pub proof fn lemma_frames_split(lines: Seq<Seq<u8>>, split: Seq<Seq<u8>>, rest: Seq<u8>)
    requires
        all_lines(lines),
        all_lines(split),
        no_newline(rest),
        frames(split) + rest == frames(lines),
    ensures
        split == lines,
        rest.len() == 0,
{
    assert(frames(lines) + Seq::<u8>::empty() =~= frames(lines));
    lemma_frames_unique(split, rest, lines, Seq::empty());
}

/// A line framed for the stream: its bytes and a newline.
pub fn frame_line(line: &mut Vec<u8>)
    ensures
        final(line)@ == old(line)@.push(NEWLINE),
{
    line.push(NEWLINE);
}

/// Splits a byte stream that arrives in chunks into newline-terminated lines.
pub struct LineDecoder {
    partial: Vec<u8>,
}

impl LineDecoder {
    /// The bytes received after the last complete line.
    pub closed spec fn partial(&self) -> Seq<u8> {
        self.partial@
    }

    pub closed spec fn wf(&self) -> bool {
        no_newline(self.partial@)
    }

    /// A decoder that has received nothing.
    pub fn new() -> (r: Self)
        ensures
            r.wf(),
            r.partial() == Seq::<u8>::empty(),
    {
        LineDecoder { partial: Vec::new() }
    }

    /// Takes the next chunk of the stream and returns the lines it completes,
    /// without their newlines.
    pub fn push(&mut self, chunk: &[u8]) -> (r: Vec<Vec<u8>>)
        requires
            old(self).wf(),
        ensures
            final(self).wf(),
            all_lines(lines_view(r@)),
            old(self).partial() + chunk@ == frames(lines_view(r@)) + final(self).partial(),
    {
        let mut lines: Vec<Vec<u8>> = Vec::new();
        let mut i: usize = 0;
        assert(lines_view(lines@) =~= Seq::empty());
        while i < chunk.len()
            invariant
                i <= chunk@.len(),
                no_newline(self.partial@),
                all_lines(lines_view(lines@)),
                old(self).partial@ + chunk@.subrange(0, i as int) == frames(lines_view(lines@))
                    + self.partial@,
            decreases chunk@.len() - i,
        {
            let b = chunk[i];
            let ghost before = lines_view(lines@);
            let ghost p = self.partial@;
            assert(chunk@.subrange(0, i + 1) =~= chunk@.subrange(0, i as int).push(b));
            assert(old(self).partial@ + chunk@.subrange(0, i + 1) =~= (old(self).partial@
                + chunk@.subrange(0, i as int)).push(b));
            assert((frames(before) + p).push(b) =~= frames(before) + p.push(b));
            if b == NEWLINE {
                let line = self.partial.clone();
                assert(line@ =~= p);
                self.partial = Vec::new();
                lines.push(line);
                assert(lines_view(lines@) =~= before.push(p));
                assert(lines_view(lines@).drop_last() =~= before);
                assert(frames(lines_view(lines@)) == frames(before) + p.push(NEWLINE));
                assert(old(self).partial@ + chunk@.subrange(0, i + 1) =~= frames(
                    lines_view(lines@),
                ) + self.partial@);
                assert forall|k: int| 0 <= k < lines_view(lines@).len() implies no_newline(
                    #[trigger] lines_view(lines@)[k],
                ) by {
                    if k < before.len() {
                        assert(lines_view(lines@)[k] == before[k]);
                    }
                }
            } else {
                self.partial.push(b);
                assert(old(self).partial@ + chunk@.subrange(0, i + 1) =~= frames(before)
                    + self.partial@);
            }
            i = i + 1;
        }
        assert(chunk@.subrange(0, i as int) =~= chunk@);
        lines
    }

    /// Ends the stream: the bytes after the last newline, if any, form a last
    /// line.
    pub fn finish(self) -> (r: Option<Vec<u8>>)
        requires
            self.wf(),
        ensures
            r is None <==> self.partial().len() == 0,
            r matches Some(l) ==> l@ == self.partial() && no_newline(l@),
    {
        if self.partial.len() == 0 {
            None
        } else {
            Some(self.partial)
        }
    }
}

/// The lines of a list of byte vectors.
pub open spec fn lines_view(v: Seq<Vec<u8>>) -> Seq<Seq<u8>> {
    v.map_values(|l: Vec<u8>| l@)
}

} // verus!
