//! Predicting which ports a peer's router may use, and what to send to them.

use vstd::prelude::*;

verus! {

/// The lowest port that is ever probed.
pub const LOWEST_PORT: u16 = 1024;

/// How many ports below the base port are probed.
pub const PORTS_BELOW: u16 = 64;

/// How many ports above the base port are probed.
pub const PORTS_ABOVE: u16 = 63;

/// The first port of the window around `base`.
pub open spec fn window_start(base: u16) -> int {
    if base - PORTS_BELOW < LOWEST_PORT {
        LOWEST_PORT as int
    } else {
        base - PORTS_BELOW
    }
}

/// The last port of the window around `base`.
pub open spec fn window_end(base: u16) -> int {
    if base + PORTS_ABOVE > u16::MAX {
        u16::MAX as int
    } else {
        base + PORTS_ABOVE
    }
}

/// The ports of the window around `base`, lowest first.
pub open spec fn window(base: u16) -> Seq<u16> {
    Seq::new(
        if window_start(base) <= window_end(base) {
            (window_end(base) - window_start(base) + 1) as nat
        } else {
            0
        },
        |i: int| (window_start(base) + i) as u16,
    )
}

/// The bytes `DECENTIS_PUNCH`, by which a peer knows a probe.
pub fn magic_probe() -> (probe: Vec<u8>)
    ensures
        probe@ == seq![
            0x44u8,
            0x45,
            0x43,
            0x45,
            0x4e,
            0x54,
            0x49,
            0x53,
            0x5f,
            0x50,
            0x55,
            0x4e,
            0x43,
            0x48,
        ],
{
    let probe: Vec<u8> = vec![
        0x44,
        0x45,
        0x43,
        0x45,
        0x4e,
        0x54,
        0x49,
        0x53,
        0x5f,
        0x50,
        0x55,
        0x4e,
        0x43,
        0x48,
    ];
    assert(probe@ =~= seq![
        0x44u8,
        0x45,
        0x43,
        0x45,
        0x4e,
        0x54,
        0x49,
        0x53,
        0x5f,
        0x50,
        0x55,
        0x4e,
        0x43,
        0x48,
    ]);
    probe
}

/// The ports to probe for a peer whose base port is `target_base_port`, in this order.
pub fn prediction_ports(target_base_port: u16) -> (ports: Vec<u16>)
    ensures
        ports@ == window(target_base_port),
{
    let lowered: u16 = target_base_port.saturating_sub(PORTS_BELOW);
    let start_port: u16 = if lowered < LOWEST_PORT {
        LOWEST_PORT
    } else {
        lowered
    };
    let end_port: u16 = target_base_port.saturating_add(PORTS_ABOVE);
    let mut ports: Vec<u16> = Vec::new();
    let mut next: u32 = start_port as u32;
    while next <= end_port as u32
        invariant
            start_port == window_start(target_base_port),
            end_port == window_end(target_base_port),
            start_port <= next,
            start_port <= end_port ==> next <= end_port + 1,
            start_port > end_port ==> next == start_port,
            ports@.len() == next - start_port,
            forall|i: int| 0 <= i < ports@.len() ==> ports@[i] == start_port + i,
        decreases end_port + 1 - next,
    {
        ports.push(next as u16);
        next = next + 1;
    }
    assert(ports@ =~= window(target_base_port));
    ports
}

/// At most 128 ports are probed, none of them twice and none below [`LOWEST_PORT`]. Away from both
/// ends of the range of ports it is exactly 128, and a base port from [`LOWEST_PORT`] on is always
/// among them.
pub proof fn law_the_window_surrounds_the_base_port(base: u16)
    ensures
        window(base).len() <= 128,
        LOWEST_PORT + PORTS_BELOW <= base <= u16::MAX - PORTS_ABOVE ==> window(base).len() == 128,
        window(base).no_duplicates(),
        forall|i: int| 0 <= i < window(base).len() ==> #[trigger] window(base)[i] >= LOWEST_PORT,
        base >= LOWEST_PORT ==> window(base).contains(base),
{
    if base >= LOWEST_PORT {
        assert(window(base)[base - window_start(base)] == base);
    }
}

/// A port is probed exactly if it is no further than 64 below and 63 above the base port, and not
/// below 1024; the ports go up one by one.
pub proof fn law_the_window_holds_the_ports_around_the_base(base: u16, port: u16, i: int)
    ensures
        window(base).contains(port) <==> 1024 <= port && base - 64 <= port <= base + 63,
        0 <= i && i + 1 < window(base).len() ==> window(base)[i + 1] == window(base)[i] + 1,
{
    if 1024 <= port && base - 64 <= port <= base + 63 {
        assert(window(base)[port - window_start(base)] == port);
    }
}

} // verus!
