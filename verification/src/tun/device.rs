//! The settings of the virtual network interface.

use vstd::prelude::*;
use vstd::string::{StrSliceExecFns, StringExecFns};

verus! {

/// The network mask of the mesh.
pub const NETMASK: &'static str = "255.255.255.0";

/// The size of the largest packet.
pub const MTU: u16 = 1420;

/// What the name of an interface starts with.
pub const NAME_PREFIX: &'static str = "mesh";

/// The settings of a virtual interface.
pub struct TunSettings {
    pub name: String,
    pub address: String,
    pub netmask: String,
    pub mtu: u16,
}

/// A text without its dots.
pub open spec fn undotted(text: Seq<char>) -> Seq<char>
    decreases text.len(),
{
    if text.len() == 0 {
        Seq::empty()
    } else if text.last() == '.' {
        undotted(text.drop_last())
    } else {
        undotted(text.drop_last()).push(text.last())
    }
}

/// The name of the interface with the virtual address `vip`: the address without its dots, behind
/// [`NAME_PREFIX`].
pub fn interface_name(vip: &str) -> (name: String)
    ensures
        name@ == NAME_PREFIX@ + undotted(vip@),
{
    let mut name = String::from_str(NAME_PREFIX);
    let len: usize = vip.unicode_len();
    let mut i: usize = 0;
    assert(name@ =~= NAME_PREFIX@ + undotted(vip@.take(0)));
    while i < len
        invariant
            i <= len == vip@.len(),
            name@ == NAME_PREFIX@ + undotted(vip@.take(i as int)),
        decreases len - i,
    {
        let ghost upto = vip@.take(i + 1);
        assert(upto.drop_last() =~= vip@.take(i as int));
        if vip.get_char(i) != '.' {
            let letter = vip.substring_char(i, i + 1);
            assert(letter@ =~= seq![upto.last()]);
            name.append(letter);
        }
        assert(name@ =~= NAME_PREFIX@ + undotted(upto));
        i = i + 1;
    }
    assert(vip@.take(len as int) =~= vip@);
    name
}

/// The settings of the interface with the virtual address `vip`.
pub fn tun_settings(vip: &str) -> (settings: TunSettings)
    ensures
        settings.name@ == NAME_PREFIX@ + undotted(vip@),
        settings.address@ == vip@,
        settings.netmask@ == NETMASK@,
        settings.mtu == MTU,
{
    TunSettings {
        name: interface_name(vip),
        address: String::from_str(vip),
        netmask: String::from_str(NETMASK),
        mtu: MTU,
    }
}

/// Dots go and everything else stays, in its order: a text in two parts is treated part by part, a
/// dot alone leaves nothing, and any other character alone leaves itself.
pub proof fn law_only_dots_go(one: Seq<char>, other: Seq<char>, letter: char)
    ensures
        undotted(one + other) == undotted(one) + undotted(other),
        undotted(Seq::empty()) == Seq::<char>::empty(),
        undotted(seq!['.']) == Seq::<char>::empty(),
        letter != '.' ==> undotted(seq![letter]) == seq![letter],
    decreases other.len(),
{
    reveal_with_fuel(undotted, 2);
    assert(seq!['.'].drop_last() =~= Seq::<char>::empty());
    assert(seq![letter].drop_last() =~= Seq::<char>::empty());
    assert(Seq::<char>::empty().push(letter) =~= seq![letter]);
    if other.len() == 0 {
        assert(one + other =~= one);
    } else {
        law_only_dots_go(one, other.drop_last(), letter);
        assert((one + other).drop_last() =~= one + other.drop_last());
        assert((one + other).last() == other.last());
        if other.last() != '.' {
            assert(undotted(one + other) =~= undotted(one) + undotted(other));
        }
    }
}

} // verus!
