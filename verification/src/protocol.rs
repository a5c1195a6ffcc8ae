use vstd::prelude::*;

verus! {

// ---------------------------------------------------------------------------
// Frames and commands
//
// Inbound text frames are byte strings. A frame is trimmed of surrounding
// ASCII whitespace; a trimmed frame that starts with `/` is a command, whose
// name runs to the first space and whose argument is everything after it.
// Anything else is a plain chat message.
// ---------------------------------------------------------------------------

/// ASCII whitespace: space, tab, line feed, carriage return, form feed.
pub open spec fn is_space(b: u8) -> bool {
    b == 32 || b == 9 || b == 10 || b == 13 || b == 12
}

/// `s` without its leading whitespace.
pub open spec fn trim_start(s: Seq<u8>) -> Seq<u8>
    decreases s.len(),
{
    if s.len() > 0 && is_space(s[0]) {
        trim_start(s.drop_first())
    } else {
        s
    }
}

/// `s` without its trailing whitespace.
pub open spec fn trim_end(s: Seq<u8>) -> Seq<u8>
    decreases s.len(),
{
    if s.len() > 0 && is_space(s.last()) {
        trim_end(s.drop_last())
    } else {
        s
    }
}

/// `s` without surrounding whitespace.
pub open spec fn trimmed(s: Seq<u8>) -> Seq<u8> {
    trim_end(trim_start(s))
}

/// Index of the first space in `s`, or `s.len()` if there is none: the end of
/// a command's name.
pub open spec fn head_end(s: Seq<u8>) -> int
    decreases s.len(),
{
    if s.len() == 0 {
        0
    } else if s[0] == 32 {
        0
    } else {
        1 + head_end(s.drop_first())
    }
}

pub open spec fn kw_list() -> Seq<u8> {
    seq![47, 108, 105, 115, 116]
}

pub open spec fn kw_join() -> Seq<u8> {
    seq![47, 106, 111, 105, 110]
}

pub open spec fn kw_name() -> Seq<u8> {
    seq![47, 110, 97, 109, 101]
}

pub open spec fn kw_history() -> Seq<u8> {
    seq![47, 104, 105, 115, 116, 111, 114, 121]
}

pub open spec fn kw_rm() -> Seq<u8> {
    seq![47, 114, 109]
}

/// A parsed inbound text frame, at the specification level.
pub enum CommandV {
    /// `/list`: ask the hub for the current room names.
    List,
    /// `/join <room>`: move to the named room.
    Join(Seq<u8>),
    /// `/join` without a room name.
    MissingRoomArg,
    /// `/name <name>`: set the display name.
    Name(Seq<u8>),
    /// `/name` without a name.
    MissingNameArg,
    /// `/history`: replay the stored messages of the current room.
    History,
    /// `/rm <username>`: ask for removal of a user's account.
    Remove(Seq<u8>),
    /// `/rm` without a username.
    MissingUserArg,
    /// A slash command that is none of the above; holds the trimmed frame.
    Unknown(Seq<u8>),
    /// No leading slash: a chat message to broadcast.
    Message(Seq<u8>),
    /// A frame that is empty once trimmed.
    Empty,
}

/// A parsed inbound text frame.
pub enum Command {
    List,
    Join(Vec<u8>),
    MissingRoomArg,
    Name(Vec<u8>),
    MissingNameArg,
    History,
    Remove(Vec<u8>),
    MissingUserArg,
    Unknown(Vec<u8>),
    Message(Vec<u8>),
    Empty,
}

impl View for Command {
    type V = CommandV;

    open spec fn view(&self) -> CommandV {
        match self {
            Command::List => CommandV::List,
            Command::Join(a) => CommandV::Join(a@),
            Command::MissingRoomArg => CommandV::MissingRoomArg,
            Command::Name(a) => CommandV::Name(a@),
            Command::MissingNameArg => CommandV::MissingNameArg,
            Command::History => CommandV::History,
            Command::Remove(a) => CommandV::Remove(a@),
            Command::MissingUserArg => CommandV::MissingUserArg,
            Command::Unknown(a) => CommandV::Unknown(a@),
            Command::Message(a) => CommandV::Message(a@),
            Command::Empty => CommandV::Empty,
        }
    }
}

/// What a trimmed frame `t` parses to.
pub open spec fn spec_parse(t: Seq<u8>) -> CommandV {
    if t.len() == 0 {
        CommandV::Empty
    } else if t[0] != 47 {
        CommandV::Message(t)
    } else {
        let h = head_end(t);
        let head = t.subrange(0, h);
        let has_arg = h < t.len();
        let arg = if has_arg {
            t.subrange(h + 1, t.len() as int)
        } else {
            Seq::empty()
        };
        if head == kw_list() {
            CommandV::List
        } else if head == kw_join() {
            if has_arg {
                CommandV::Join(arg)
            } else {
                CommandV::MissingRoomArg
            }
        } else if head == kw_name() {
            if has_arg {
                CommandV::Name(arg)
            } else {
                CommandV::MissingNameArg
            }
        } else if head == kw_history() {
            CommandV::History
        } else if head == kw_rm() {
            if has_arg {
                CommandV::Remove(arg)
            } else {
                CommandV::MissingUserArg
            }
        } else {
            CommandV::Unknown(t)
        }
    }
}

/// What a raw frame parses to: its trimmed form, classified.
pub open spec fn parse_frame_spec(frame: Seq<u8>) -> CommandV {
    spec_parse(trimmed(frame))
}

// ---------------------------------------------------------------------------
// Lemmas connecting the recursive trim and split functions to index bounds.
// ---------------------------------------------------------------------------

proof fn lemma_trim_start_at(s: Seq<u8>, i: int)
    requires
        0 <= i <= s.len(),
        forall|k: int| 0 <= k < i ==> is_space(s[k]),
        i < s.len() ==> !is_space(s[i]),
    ensures
        trim_start(s) =~= s.subrange(i, s.len() as int),
    decreases i,
{
    if i == 0 {
        assert(s.subrange(0, s.len() as int) =~= s);
    } else {
        assert(is_space(s[0]));
        let d = s.drop_first();
        assert forall|k: int| 0 <= k < i - 1 implies is_space(d[k]) by {
            assert(d[k] == s[k + 1]);
        }
        lemma_trim_start_at(d, i - 1);
        assert(d.subrange(i - 1, d.len() as int) =~= s.subrange(i, s.len() as int));
    }
}

proof fn lemma_trim_end_at(s: Seq<u8>, j: int)
    requires
        0 <= j <= s.len(),
        forall|k: int| j <= k < s.len() ==> is_space(s[k]),
        j > 0 ==> !is_space(s[j - 1]),
    ensures
        trim_end(s) =~= s.subrange(0, j),
    decreases s.len(),
{
    if j == s.len() {
        assert(s.subrange(0, j) =~= s);
    } else {
        assert(is_space(s.last()));
        let d = s.drop_last();
        lemma_trim_end_at(d, j);
        assert(d.subrange(0, j) =~= s.subrange(0, j));
    }
}

proof fn lemma_head_end_at(s: Seq<u8>, i: int)
    requires
        0 <= i <= s.len(),
        forall|k: int| 0 <= k < i ==> s[k] != 32,
        i < s.len() ==> s[i] == 32,
    ensures
        head_end(s) == i,
    decreases i,
{
    if i == 0 {
    } else {
        let d = s.drop_first();
        assert forall|k: int| 0 <= k < i - 1 implies d[k] != 32 by {
            assert(d[k] == s[k + 1]);
        }
        assert(i - 1 < d.len() ==> d[i - 1] == 32);
        lemma_head_end_at(d, i - 1);
    }
}

// ---------------------------------------------------------------------------
// Executable parsing
// ---------------------------------------------------------------------------

fn is_space_byte(b: u8) -> (r: bool)
    ensures
        r == is_space(b),
{
    b == 32 || b == 9 || b == 10 || b == 13 || b == 12
}

/// Copies `s[lo..hi]` into a fresh vector.
fn copy_range(s: &[u8], lo: usize, hi: usize) -> (v: Vec<u8>)
    requires
        lo <= hi <= s@.len(),
    ensures
        v@ == s@.subrange(lo as int, hi as int),
{
    let mut v: Vec<u8> = Vec::new();
    let mut i: usize = lo;
    while i < hi
        invariant
            lo <= i <= hi <= s@.len(),
            v@ =~= s@.subrange(lo as int, i as int),
        decreases hi - i,
    {
        v.push(s[i]);
        i += 1;
        proof {
            assert(v@ =~= s@.subrange(lo as int, i as int));
        }
    }
    proof {
        assert(v@ =~= s@.subrange(lo as int, hi as int));
    }
    v
}

/// Whether two byte strings are equal.
pub(crate) fn bytes_eq(a: &[u8], b: &[u8]) -> (r: bool)
    ensures
        r == (a@ == b@),
{
    if a.len() != b.len() {
        return false;
    }
    let n = a.len();
    let mut i: usize = 0;
    while i < n
        invariant
            0 <= i <= n,
            n == a@.len(),
            a@.len() == b@.len(),
            forall|k: int| 0 <= k < i ==> a@[k] == b@[k],
        decreases n - i,
    {
        if a[i] != b[i] {
            return false;
        }
        i += 1;
    }
    proof {
        assert(a@ =~= b@);
    }
    true
}

/// Copies a byte string.
pub(crate) fn copy_bytes(s: &[u8]) -> (v: Vec<u8>)
    ensures
        v@ == s@,
{
    let v = copy_range(s, 0, s.len());
    proof {
        assert(s@.subrange(0, s@.len() as int) =~= s@);
    }
    v
}

/// Appends a byte string to another.
pub(crate) fn append_bytes(dst: &mut Vec<u8>, src: &[u8])
    ensures
        final(dst)@ == old(dst)@ + src@,
{
    let n = src.len();
    let mut i: usize = 0;
    while i < n
        invariant
            0 <= i <= n,
            n == src@.len(),
            dst@ =~= old(dst)@ + src@.subrange(0, i as int),
        decreases n - i,
    {
        dst.push(src[i]);
        i += 1;
        proof {
            assert(dst@ =~= old(dst)@ + src@.subrange(0, i as int));
        }
    }
    proof {
        assert(old(dst)@ + src@.subrange(0, n as int) =~= old(dst)@ + src@);
    }
}

/// Parses one inbound text frame: trims it, then classifies it as a command,
/// a chat message, or an empty frame.
pub fn parse_frame(frame: &[u8]) -> (c: Command)
    ensures
        c@ == parse_frame_spec(frame@),
{
    let n = frame.len();
    let mut lo: usize = 0;
    while lo < n && is_space_byte(frame[lo])
        invariant
            0 <= lo <= n,
            n == frame@.len(),
            forall|k: int| 0 <= k < lo ==> is_space(frame@[k]),
        decreases n - lo,
    {
        lo += 1;
    }
    if lo == n {
        proof {
            lemma_trim_start_at(frame@, lo as int);
            assert(trim_start(frame@).len() == 0);
        }
        return Command::Empty;
    }
    let mut hi: usize = n;
    while hi > lo + 1 && is_space_byte(frame[hi - 1])
        invariant
            lo < hi <= n,
            n == frame@.len(),
            forall|k: int| hi <= k < n ==> is_space(frame@[k]),
        decreases hi,
    {
        hi -= 1;
    }
    let t = copy_range(frame, lo, hi);
    proof {
        lemma_trim_start_at(frame@, lo as int);
        let u = frame@.subrange(lo as int, n as int);
        assert forall|k: int| hi - lo <= k < u.len() implies is_space(u[k]) by {
            assert(u[k] == frame@[lo + k]);
        }
        assert(!is_space(u[hi - lo - 1]));
        lemma_trim_end_at(u, hi as int - lo as int);
        assert(u.subrange(0, hi as int - lo as int) =~= frame@.subrange(lo as int, hi as int));
        assert(trimmed(frame@) == t@);
    }
    if t[0] != 47 {
        return Command::Message(t);
    }
    let m = t.len();
    let mut h: usize = 0;
    while h < m && t[h] != 32
        invariant
            0 <= h <= m,
            m == t@.len(),
            forall|k: int| 0 <= k < h ==> t@[k] != 32,
        decreases m - h,
    {
        h += 1;
    }
    proof {
        lemma_head_end_at(t@, h as int);
    }
    let head = copy_range(t.as_slice(), 0, h);
    let has_arg = h < m;
    let arg = if has_arg {
        copy_range(t.as_slice(), h + 1, m)
    } else {
        Vec::new()
    };
    let hl = head.len();
    let is_list = hl == 5 && head[1] == 108 && head[2] == 105 && head[3] == 115 && head[4]
        == 116;
    let is_join = hl == 5 && head[1] == 106 && head[2] == 111 && head[3] == 105 && head[4]
        == 110;
    let is_name = hl == 5 && head[1] == 110 && head[2] == 97 && head[3] == 109 && head[4]
        == 101;
    let is_history = hl == 8 && head[1] == 104 && head[2] == 105 && head[3] == 115 && head[4]
        == 116 && head[5] == 111 && head[6] == 114 && head[7] == 121;
    let is_rm = hl == 3 && head[1] == 114 && head[2] == 109;
    proof {
        assert(head@[0] == 47);
        assert(is_list == (head@ =~= kw_list()));
        assert(is_join == (head@ =~= kw_join()));
        assert(is_name == (head@ =~= kw_name()));
        assert(is_history == (head@ =~= kw_history()));
        assert(is_rm == (head@ =~= kw_rm()));
    }
    if is_list {
        Command::List
    } else if is_join {
        if has_arg {
            Command::Join(arg)
        } else {
            Command::MissingRoomArg
        }
    } else if is_name {
        if has_arg {
            Command::Name(arg)
        } else {
            Command::MissingNameArg
        }
    } else if is_history {
        Command::History
    } else if is_rm {
        if has_arg {
            Command::Remove(arg)
        } else {
            Command::MissingUserArg
        }
    } else {
        Command::Unknown(t)
    }
}

} // verus!
