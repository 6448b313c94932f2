//! Fixed facts about the device and the bus connection: the opaque vendor
//! reset frames sent once at connection open, the default serial device, and
//! how the bus socket path is turned into a connection address.

use vstd::prelude::*;

verus! {

/// The wake-up frame sent first: a bare CR/LF.
pub open spec fn spec_wake_frame() -> Seq<u8> {
    seq![0x0du8, 0x0au8]
}

/// The four opaque vendor reset frames, in the order they are transmitted
/// once at connection open.  Their contents are protocol-opaque and are
/// preserved verbatim, not interpreted.
pub open spec fn spec_reset_frames() -> Seq<Seq<u8>> {
    seq![
        seq![
            0x01u8, 0x3fu8, 0x2cu8, 0x32u8, 0x33u8, 0x32u8, 0x2cu8, 0x30u8, 0x2cu8, 0x31u8, 0x34u8,
            0x2cu8, 0x30u8, 0x2cu8, 0x31u8, 0x2cu8, 0x0du8, 0x0au8,
        ],
        seq![
            0x01u8, 0x3fu8, 0x2cu8, 0x32u8, 0x33u8, 0x32u8, 0x2cu8, 0x30u8, 0x2cu8, 0x32u8, 0x34u8,
            0x2cu8, 0x30u8, 0x2cu8, 0x0du8, 0x0au8,
        ],
        seq![
            0x01u8, 0x3fu8, 0x2cu8, 0x32u8, 0x33u8, 0x32u8, 0x2cu8, 0x30u8, 0x2cu8, 0x39u8, 0x2cu8,
            0x30u8, 0x2cu8, 0x0du8, 0x0au8,
        ],
        seq![
            0x01u8, 0x3fu8, 0x2cu8, 0x32u8, 0x33u8, 0x32u8, 0x2cu8, 0x30u8, 0x2cu8, 0x31u8, 0x34u8,
            0x2cu8, 0x31u8, 0x2cu8, 0x30u8, 0x0du8, 0x0au8,
        ],
    ]
}

/// The wake-up bytes written before the reset frames.
pub fn wake_frame() -> (r: Vec<u8>)
    ensures
        r@ == spec_wake_frame(),
{
    let r = vec![0x0du8, 0x0au8];
    proof {
        assert(r@ =~= spec_wake_frame());
    }
    r
}

/// The reset frames as bytes, in transmission order.
pub fn reset_frames() -> (r: Vec<Vec<u8>>)
    ensures
        r.deep_view() == spec_reset_frames(),
{
    let f1 = vec![
        0x01u8, 0x3fu8, 0x2cu8, 0x32u8, 0x33u8, 0x32u8, 0x2cu8, 0x30u8, 0x2cu8, 0x31u8, 0x34u8,
        0x2cu8, 0x30u8, 0x2cu8, 0x31u8, 0x2cu8, 0x0du8, 0x0au8,
    ];
    let f2 = vec![
        0x01u8, 0x3fu8, 0x2cu8, 0x32u8, 0x33u8, 0x32u8, 0x2cu8, 0x30u8, 0x2cu8, 0x32u8, 0x34u8,
        0x2cu8, 0x30u8, 0x2cu8, 0x0du8, 0x0au8,
    ];
    let f3 = vec![
        0x01u8, 0x3fu8, 0x2cu8, 0x32u8, 0x33u8, 0x32u8, 0x2cu8, 0x30u8, 0x2cu8, 0x39u8, 0x2cu8,
        0x30u8, 0x2cu8, 0x0du8, 0x0au8,
    ];
    let f4 = vec![
        0x01u8, 0x3fu8, 0x2cu8, 0x32u8, 0x33u8, 0x32u8, 0x2cu8, 0x30u8, 0x2cu8, 0x31u8, 0x34u8,
        0x2cu8, 0x31u8, 0x2cu8, 0x30u8, 0x0du8, 0x0au8,
    ];
    proof {
        assert(f1@ =~= spec_reset_frames()[0]);
        assert(f2@ =~= spec_reset_frames()[1]);
        assert(f3@ =~= spec_reset_frames()[2]);
        assert(f4@ =~= spec_reset_frames()[3]);
    }
    let ghost g1 = f1@;
    let ghost g2 = f2@;
    let ghost g3 = f3@;
    let ghost g4 = f4@;
    let r = vec![f1, f2, f3, f4];
    proof {
        assert(r@.len() == 4);
        assert(r.deep_view()[0] == g1);
        assert(r.deep_view()[1] == g2);
        assert(r.deep_view()[2] == g3);
        assert(r.deep_view()[3] == g4);
        assert(r.deep_view() =~~= spec_reset_frames());
    }
    r
}

/// The serial device used when none is named.
pub fn get_default_serial_port() -> (r: String)
    ensures
        r@ == "/dev/ttyUSB0"@,
{
    String::from_str("/dev/ttyUSB0")
}

/// Whether a socket path is already absolute.
pub fn is_absolute_path(path: &str) -> (r: bool)
    ensures
        r == (path@.len() > 0 && path@[0] == '/'),
{
    let n = path.unicode_len();
    n > 0 && path.get_char(0) == '/'
}

/// The bus connection address for an absolute socket path.
pub fn redis_unix_url(socket_path: &str) -> (r: String)
    ensures
        r@ == "unix://"@ + socket_path@,
{
    let mut out = String::from_str("unix://");
    out.append(socket_path);
    out
}

} // verus!
