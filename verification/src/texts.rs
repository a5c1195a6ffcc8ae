use vstd::prelude::*;

verus! {

// ---------------------------------------------------------------------------
// The fixed texts of the protocol: replies to the client, the default room,
// and the separator used when a display name labels a line. Each text is a
// spec function, with an executable builder proved against it.
// ---------------------------------------------------------------------------

/// The reply to a successful join. (`"joined"`)
pub open spec fn joined_text() -> Seq<u8> {
    seq![106, 111, 105, 110, 101, 100]
}

pub fn reply_joined() -> (r: Vec<u8>)
    ensures
        r@ == joined_text(),
{
    let mut v: Vec<u8> = Vec::new();
    v.push(106);
    v.push(111);
    v.push(105);
    v.push(110);
    v.push(101);
    v.push(100);
    proof {
        assert(v@ =~= joined_text());
    }
    v
}

/// The error reply to `/join` without a room name. (`"!!! room name is required"`)
pub open spec fn room_required_text() -> Seq<u8> {
    seq![33, 33, 33, 32, 114, 111, 111, 109, 32, 110, 97, 109, 101, 32, 105, 115, 32, 114, 101, 113, 117, 105, 114, 101, 100]
}

pub fn reply_room_required() -> (r: Vec<u8>)
    ensures
        r@ == room_required_text(),
{
    let mut v: Vec<u8> = Vec::new();
    v.push(33);
    v.push(33);
    v.push(33);
    v.push(32);
    v.push(114);
    v.push(111);
    v.push(111);
    v.push(109);
    v.push(32);
    v.push(110);
    v.push(97);
    v.push(109);
    v.push(101);
    v.push(32);
    v.push(105);
    v.push(115);
    v.push(32);
    v.push(114);
    v.push(101);
    v.push(113);
    v.push(117);
    v.push(105);
    v.push(114);
    v.push(101);
    v.push(100);
    proof {
        assert(v@ =~= room_required_text());
    }
    v
}

/// The error reply to `/name` or `/rm` without an argument. (`"!!! name is required"`)
pub open spec fn name_required_text() -> Seq<u8> {
    seq![33, 33, 33, 32, 110, 97, 109, 101, 32, 105, 115, 32, 114, 101, 113, 117, 105, 114, 101, 100]
}

pub fn reply_name_required() -> (r: Vec<u8>)
    ensures
        r@ == name_required_text(),
{
    let mut v: Vec<u8> = Vec::new();
    v.push(33);
    v.push(33);
    v.push(33);
    v.push(32);
    v.push(110);
    v.push(97);
    v.push(109);
    v.push(101);
    v.push(32);
    v.push(105);
    v.push(115);
    v.push(32);
    v.push(114);
    v.push(101);
    v.push(113);
    v.push(117);
    v.push(105);
    v.push(114);
    v.push(101);
    v.push(100);
    proof {
        assert(v@ =~= name_required_text());
    }
    v
}

/// The prefix of the reply to an unrecognised command; the offending frame follows it. (`"!!! unknown command: "`)
pub open spec fn unknown_prefix_text() -> Seq<u8> {
    seq![33, 33, 33, 32, 117, 110, 107, 110, 111, 119, 110, 32, 99, 111, 109, 109, 97, 110, 100, 58, 32]
}

pub fn reply_unknown_prefix() -> (r: Vec<u8>)
    ensures
        r@ == unknown_prefix_text(),
{
    let mut v: Vec<u8> = Vec::new();
    v.push(33);
    v.push(33);
    v.push(33);
    v.push(32);
    v.push(117);
    v.push(110);
    v.push(107);
    v.push(110);
    v.push(111);
    v.push(119);
    v.push(110);
    v.push(32);
    v.push(99);
    v.push(111);
    v.push(109);
    v.push(109);
    v.push(97);
    v.push(110);
    v.push(100);
    v.push(58);
    v.push(32);
    proof {
        assert(v@ =~= unknown_prefix_text());
    }
    v
}

/// The reply to `/rm` from a caller without the elevated permission. (`"!!! permission denied"`)
pub open spec fn denied_text() -> Seq<u8> {
    seq![33, 33, 33, 32, 112, 101, 114, 109, 105, 115, 115, 105, 111, 110, 32, 100, 101, 110, 105, 101, 100]
}

pub fn reply_denied() -> (r: Vec<u8>)
    ensures
        r@ == denied_text(),
{
    let mut v: Vec<u8> = Vec::new();
    v.push(33);
    v.push(33);
    v.push(33);
    v.push(32);
    v.push(112);
    v.push(101);
    v.push(114);
    v.push(109);
    v.push(105);
    v.push(115);
    v.push(115);
    v.push(105);
    v.push(111);
    v.push(110);
    v.push(32);
    v.push(100);
    v.push(101);
    v.push(110);
    v.push(105);
    v.push(101);
    v.push(100);
    proof {
        assert(v@ =~= denied_text());
    }
    v
}

/// The reply to the sender of a message that storage would not accept. (`"!!! could not deliver message"`)
pub open spec fn delivery_failed_text() -> Seq<u8> {
    seq![33, 33, 33, 32, 99, 111, 117, 108, 100, 32, 110, 111, 116, 32, 100, 101, 108, 105, 118, 101, 114, 32, 109, 101, 115, 115, 97, 103, 101]
}

pub fn reply_delivery_failed() -> (r: Vec<u8>)
    ensures
        r@ == delivery_failed_text(),
{
    let mut v: Vec<u8> = Vec::new();
    v.push(33);
    v.push(33);
    v.push(33);
    v.push(32);
    v.push(99);
    v.push(111);
    v.push(117);
    v.push(108);
    v.push(100);
    v.push(32);
    v.push(110);
    v.push(111);
    v.push(116);
    v.push(32);
    v.push(100);
    v.push(101);
    v.push(108);
    v.push(105);
    v.push(118);
    v.push(101);
    v.push(114);
    v.push(32);
    v.push(109);
    v.push(101);
    v.push(115);
    v.push(115);
    v.push(97);
    v.push(103);
    v.push(101);
    proof {
        assert(v@ =~= delivery_failed_text());
    }
    v
}

/// The room every session starts in. (`"main"`)
pub open spec fn default_room_name() -> Seq<u8> {
    seq![109, 97, 105, 110]
}

pub fn room_main() -> (r: Vec<u8>)
    ensures
        r@ == default_room_name(),
{
    let mut v: Vec<u8> = Vec::new();
    v.push(109);
    v.push(97);
    v.push(105);
    v.push(110);
    proof {
        assert(v@ =~= default_room_name());
    }
    v
}

/// What stands between a display name and the text it labels. (`": "`)
pub open spec fn name_sep_text() -> Seq<u8> {
    seq![58, 32]
}

pub fn name_sep() -> (r: Vec<u8>)
    ensures
        r@ == name_sep_text(),
{
    let mut v: Vec<u8> = Vec::new();
    v.push(58);
    v.push(32);
    proof {
        assert(v@ =~= name_sep_text());
    }
    v
}

} // verus!
