use vstd::prelude::*;
use vstd::utf8::encode_utf8;
use crate::name::{
    ascii_chars, ascii_string, decimal, hex_upper, is_ascii_bytes, lemma_ascii_concat,
    lemma_decimal_ascii, lemma_hex_ascii, push_bytes, push_decimal, push_hex_upper,
};

verus! {

/// A backup request as it comes from a client. Empty keys are unbounded.
#[derive(Debug)]
pub struct BackupRequest {
    pub start_key: Vec<u8>,
    pub end_key: Vec<u8>,
    pub start_version: u64,
    pub end_version: u64,
    /// Where the files go, as `scheme://path`.
    pub path: String,
}

/// The destination of a backup's files.
#[derive(Debug)]
pub enum Sink {
    /// A directory of the local file system.
    Local { path: Vec<u8> },
    /// A sink that keeps nothing.
    Noop,
}

/// A sink as a mathematical value.
pub enum SinkModel {
    Local { path: Seq<u8> },
    Noop,
}

impl View for Sink {
    type V = SinkModel;

    open spec fn view(&self) -> SinkModel {
        match self {
            Sink::Local { path } => SinkModel::Local { path: path@ },
            Sink::Noop => SinkModel::Noop,
        }
    }
}

/// Why a destination could not be resolved to a sink.
#[derive(Clone, Copy, Debug, PartialEq, Eq, Structural)]
pub enum SinkError {
    /// The destination is empty.
    Empty,
    /// It has no `scheme://` part.
    NoScheme,
    /// Its scheme names no known sink.
    UnknownScheme,
    /// A local sink without a path.
    EmptyPath,
}

/// The byte `:`.
pub const COLON: u8 = 58;

/// The byte `/`.
pub const SLASH: u8 = 47;

/// `local`, in ASCII.
pub open spec fn local_scheme() -> Seq<u8> {
    seq![108u8, 111u8, 99u8, 97u8, 108u8]
}

/// `noop`, in ASCII.
pub open spec fn noop_scheme() -> Seq<u8> {
    seq![110u8, 111u8, 111u8, 112u8]
}

/// `://` stands in `u` at `i`.
pub open spec fn separator_at(u: Seq<u8>, i: int) -> bool {
    &&& 0 <= i
    &&& i + 3 <= u.len()
    &&& u[i] == COLON
    &&& u[i + 1] == SLASH
    &&& u[i + 2] == SLASH
}

/// The first place at or after `i` where `://` stands in `u`.
pub open spec fn separator_from(u: Seq<u8>, i: int) -> Option<int>
    decreases u.len() - i,
{
    if i < 0 || i + 3 > u.len() {
        None
    } else if separator_at(u, i) {
        Some(i)
    } else {
        separator_from(u, i + 1)
    }
}

/// The sink that destination `u` names.
pub open spec fn sink_of(u: Seq<u8>) -> Result<SinkModel, SinkError> {
    if u.len() == 0 {
        Err(SinkError::Empty)
    } else {
        match separator_from(u, 0) {
            None => Err(SinkError::NoScheme),
            Some(i) => {
                let scheme = u.subrange(0, i);
                let path = u.skip(i + 3);
                if scheme == local_scheme() {
                    if path.len() == 0 {
                        Err(SinkError::EmptyPath)
                    } else {
                        Ok(SinkModel::Local { path })
                    }
                } else if scheme == noop_scheme() {
                    Ok(SinkModel::Noop)
                } else {
                    Err(SinkError::UnknownScheme)
                }
            },
        }
    }
}

/// Whether `u` starts with `name` followed by `://` at `i`.
fn scheme_is(u: &[u8], i: usize, name: &Vec<u8>) -> (r: bool)
    requires
        i <= u@.len(),
    ensures
        r == (u@.subrange(0, i as int) == name@),
{
    if i != name.len() {
        proof {
            if u@.subrange(0, i as int) == name@ {
                assert(u@.subrange(0, i as int).len() == i);
            }
        }
        return false;
    }
    let mut j: usize = 0;
    while j < i
        invariant
            j <= i,
            i == name@.len(),
            i <= u@.len(),
            u@.subrange(0, j as int) == name@.subrange(0, j as int),
        decreases i - j,
    {
        if u[j] != name[j] {
            proof {
                if u@.subrange(0, i as int) == name@ {
                    assert(u@.subrange(0, i as int)[j as int] == u@[j as int]);
                }
            }
            return false;
        }
        j = j + 1;
        assert(u@.subrange(0, j as int) =~= name@.subrange(0, j as int));
    }
    assert(name@.subrange(0, i as int) =~= name@);
    true
}

/// Resolves a destination `scheme://path` to a sink: `local` with a
/// non-empty path, or `noop`.
pub fn parse_sink(u: &[u8]) -> (r: Result<Sink, SinkError>)
    ensures
        match r {
            Ok(s) => sink_of(u@) == Ok::<SinkModel, SinkError>(s@),
            Err(e) => sink_of(u@) == Err::<SinkModel, SinkError>(e),
        },
{
    let n = u.len();
    if n == 0 {
        return Err(SinkError::Empty);
    }
    let mut i: usize = 0;
    while 3 <= n - i && !(u[i] == COLON && u[i + 1] == SLASH && u[i + 2] == SLASH)
        invariant
            n == u@.len(),
            i <= n,
            separator_from(u@, 0) == separator_from(u@, i as int),
        decreases n - i,
    {
        i = i + 1;
    }
    if n - i < 3 {
        return Err(SinkError::NoScheme);
    }
    assert(separator_from(u@, 0) == Some(i as int));
    let local: Vec<u8> = vec![108u8, 111u8, 99u8, 97u8, 108u8];
    let noop: Vec<u8> = vec![110u8, 111u8, 111u8, 112u8];
    assert(local@ =~= local_scheme());
    assert(noop@ =~= noop_scheme());
    if scheme_is(u, i, &local) {
        if i + 3 == n {
            assert(u@.skip(i + 3).len() == 0);
            return Err(SinkError::EmptyPath);
        }
        let mut path: Vec<u8> = Vec::new();
        let mut j: usize = i + 3;
        while j < n
            invariant
                n == u@.len(),
                i + 3 <= j <= n,
                path@ == u@.subrange(i + 3, j as int),
            decreases n - j,
        {
            path.push(u[j]);
            j = j + 1;
            assert(path@ =~= u@.subrange(i + 3, j as int));
        }
        assert(path@ =~= u@.skip(i + 3));
        Ok(Sink::Local { path })
    } else if scheme_is(u, i, &noop) {
        Ok(Sink::Noop)
    } else {
        Err(SinkError::UnknownScheme)
    }
}

/// One backup request, checked and ready to run.
#[derive(Debug)]
pub struct Task {
    pub start_key: Vec<u8>,
    pub end_key: Vec<u8>,
    pub start_ts: u64,
    pub end_ts: u64,
    pub sink: Sink,
}

impl Task {
    /// The task of request `req`, or the reason its destination names no sink.
    pub fn new(req: BackupRequest) -> (r: Result<Task, SinkError>)
        ensures
            match sink_of(encode_utf8(req.path@)) {
                Ok(s) => r is Ok && r->Ok_0.sink@ == s,
                Err(e) => r == Err::<Task, SinkError>(e),
            },
            r is Ok ==> {
                let t = r->Ok_0;
                &&& t.start_key@ == req.start_key@
                &&& t.end_key@ == req.end_key@
                &&& t.start_ts == req.start_version
                &&& t.end_ts == req.end_version
            },
    {
        let sink = parse_sink(req.path.as_str().as_bytes());
        match sink {
            Ok(sink) => Ok(
                Task {
                    start_key: req.start_key,
                    end_key: req.end_key,
                    start_ts: req.start_version,
                    end_ts: req.end_version,
                    sink,
                },
            ),
            Err(e) => Err(e),
        }
    }

    /// A task whose two timestamps agree asks for a full backup; others ask
    /// for an incremental one, which is not carried out.
    pub fn is_full_backup(&self) -> (r: bool)
        ensures
            r == (self.start_ts == self.end_ts),
    {
        self.start_ts == self.end_ts
    }
}

/// `BackupTask { start_ts: `, in ASCII.
pub open spec fn text_head() -> Seq<u8> {
    seq![66u8, 97, 99, 107, 117, 112, 84, 97, 115, 107, 32, 123, 32, 115, 116, 97, 114, 116, 95, 116, 115, 58, 32]
}

/// `, end_ts: `, in ASCII.
pub open spec fn text_end_ts() -> Seq<u8> {
    seq![44u8, 32, 101, 110, 100, 95, 116, 115, 58, 32]
}

/// `, start_key: "`, in ASCII.
pub open spec fn text_start_key() -> Seq<u8> {
    seq![44u8, 32, 115, 116, 97, 114, 116, 95, 107, 101, 121, 58, 32, 34]
}

/// `", end_key: "`, in ASCII.
pub open spec fn text_end_key() -> Seq<u8> {
    seq![34u8, 44, 32, 101, 110, 100, 95, 107, 101, 121, 58, 32, 34]
}

/// `" }`, in ASCII.
pub open spec fn text_tail() -> Seq<u8> {
    seq![34u8, 32, 125]
}

/// The text form of a task:
/// `BackupTask { start_ts: 1, end_ts: 1, start_key: "61", end_key: "7A" }`,
/// with the keys in upper-case hexadecimal.
pub open spec fn task_text(start_ts: u64, end_ts: u64, start_key: Seq<u8>, end_key: Seq<u8>) -> Seq<u8> {
    text_head() + decimal(start_ts as nat) + text_end_ts() + decimal(end_ts as nat) + text_start_key()
        + hex_upper(start_key) + text_end_key() + hex_upper(end_key) + text_tail()
}

impl Task {
    /// The task as text, for logs: its timestamps, and its keys in upper-case
    /// hexadecimal.
    pub fn describe(&self) -> (r: String)
        ensures
            r@ == ascii_chars(task_text(self.start_ts, self.end_ts, self.start_key@, self.end_key@)),
    {
        let head: Vec<u8> = vec![66u8, 97, 99, 107, 117, 112, 84, 97, 115, 107, 32, 123, 32, 115, 116, 97, 114, 116, 95, 116, 115, 58, 32];
        let end_ts: Vec<u8> = vec![44u8, 32, 101, 110, 100, 95, 116, 115, 58, 32];
        let start_key: Vec<u8> = vec![44u8, 32, 115, 116, 97, 114, 116, 95, 107, 101, 121, 58, 32, 34];
        let end_key: Vec<u8> = vec![34u8, 44, 32, 101, 110, 100, 95, 107, 101, 121, 58, 32, 34];
        let tail: Vec<u8> = vec![34u8, 32, 125];
        assert(head@ =~= text_head());
        assert(end_ts@ =~= text_end_ts());
        assert(start_key@ =~= text_start_key());
        assert(end_key@ =~= text_end_key());
        assert(tail@ =~= text_tail());
        let mut out: Vec<u8> = Vec::new();
        push_bytes(&mut out, &head);
        push_decimal(&mut out, self.start_ts);
        push_bytes(&mut out, &end_ts);
        push_decimal(&mut out, self.end_ts);
        push_bytes(&mut out, &start_key);
        push_hex_upper(&mut out, &self.start_key);
        push_bytes(&mut out, &end_key);
        push_hex_upper(&mut out, &self.end_key);
        push_bytes(&mut out, &tail);
        proof {
            let t = task_text(self.start_ts, self.end_ts, self.start_key@, self.end_key@);
            assert(out@ =~= t);
            lemma_decimal_ascii(self.start_ts as nat);
            lemma_decimal_ascii(self.end_ts as nat);
            lemma_hex_ascii(self.start_key@);
            lemma_hex_ascii(self.end_key@);
            assert(is_ascii_bytes(text_head()));
            assert(is_ascii_bytes(text_end_ts()));
            assert(is_ascii_bytes(text_start_key()));
            assert(is_ascii_bytes(text_end_key()));
            assert(is_ascii_bytes(text_tail()));
            assert(is_ascii_bytes(decimal(self.start_ts as nat)));
            assert(is_ascii_bytes(decimal(self.end_ts as nat)));
            let a1 = text_head() + decimal(self.start_ts as nat);
            lemma_ascii_concat(text_head(), decimal(self.start_ts as nat));
            let a2 = a1 + text_end_ts();
            lemma_ascii_concat(a1, text_end_ts());
            let a3 = a2 + decimal(self.end_ts as nat);
            lemma_ascii_concat(a2, decimal(self.end_ts as nat));
            let a4 = a3 + text_start_key();
            lemma_ascii_concat(a3, text_start_key());
            let a5 = a4 + hex_upper(self.start_key@);
            lemma_ascii_concat(a4, hex_upper(self.start_key@));
            let a6 = a5 + text_end_key();
            lemma_ascii_concat(a5, text_end_key());
            let a7 = a6 + hex_upper(self.end_key@);
            lemma_ascii_concat(a6, hex_upper(self.end_key@));
            lemma_ascii_concat(a7, text_tail());
        }
        ascii_string(out)
    }
}

} // verus!
