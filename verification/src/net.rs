//! The addresses of this computer.

use crate::number::push_decimal;
use crate::text::{chars_of, contains, lower};
use vstd::prelude::*;

#[allow(unused_imports)]
use crate::number::{decimal, is_digit, lemma_decimal};
#[allow(unused_imports)]
use crate::text::{
    law_occurs, law_split_at_separator, law_split_whole, lowercase, occurs, split,
};

verus! {

/// The address that stands for this computer where no other is known.
pub const LOCALHOST: &'static str = "127.0.0.1";

/// One address of a network interface: the name of the interface, and the four numbers
/// of the address where it is one of IPv4.
#[derive(Clone, Debug, PartialEq, Eq)]
pub struct Interface {
    pub name: String,
    pub ipv4: Option<[u8; 4]>,
}

/// An interface as it is shown to the user.
#[derive(Clone, Debug, PartialEq, Eq)]
pub struct ListedInterface {
    pub name: String,
    pub ip: String,
    pub is_virtual: bool,
}

/// What a shown interface says.
#[verifier::ext_equal]
pub struct Listed {
    pub name: Seq<char>,
    pub ip: Seq<char>,
    pub is_virtual: bool,
}

impl View for ListedInterface {
    type V = Listed;

    open spec fn view(&self) -> Listed {
        Listed { name: self.name@, ip: self.ip@, is_virtual: self.is_virtual }
    }
}

/// The name and the address of this computer.
#[derive(Clone, Debug, PartialEq, Eq)]
pub struct LocalInfo {
    pub hostname: String,
    pub ip: String,
}

/// The text of an IPv4 address: its four numbers with dots between them.
pub open spec fn dotted(octets: Seq<u8>) -> Seq<char> {
    decimal(octets[0] as nat) + seq!['.'] + decimal(octets[1] as nat) + seq!['.'] + decimal(
        octets[2] as nat,
    ) + seq!['.'] + decimal(octets[3] as nat)
}

/// Whether an IPv4 address leads back to this computer.
pub open spec fn is_loopback(octets: Seq<u8>) -> bool {
    octets[0] == 127
}

/// Whether a name in lower case is that of an interface without hardware.
pub open spec fn names_virtual(lowered: Seq<char>) -> bool {
    ||| occurs(lowered, "loopback"@)
    ||| occurs(lowered, "wsl"@)
    ||| occurs(lowered, "vbox"@)
    ||| occurs(lowered, "virtualbox"@)
    ||| occurs(lowered, "vmware"@)
    ||| occurs(lowered, "vethernet"@)
    ||| occurs(lowered, "pseudo"@)
    ||| occurs(lowered, "teredo"@)
    ||| occurs(lowered, "isatap"@)
}

/// Whether other computers can be expected to reach this one by an address of an
/// interface.
pub open spec fn is_usable(interface: Interface) -> bool {
    &&& interface.ipv4 matches Some(octets)
    &&& !is_loopback(octets@)
    &&& !names_virtual(lowercase(interface.name@))
}

/// The first usable address in a list of interfaces, or the loopback address.
pub open spec fn first_usable(interfaces: Seq<Interface>) -> Seq<char>
    decreases interfaces.len(),
{
    if interfaces.len() == 0 {
        LOCALHOST@
    } else if is_usable(interfaces[0]) {
        dotted(interfaces[0].ipv4->0@)
    } else {
        first_usable(interfaces.skip(1))
    }
}

/// Whether an interface is shown: it has an IPv4 address that is not a loopback one.
pub open spec fn is_shown(interface: Interface) -> bool {
    interface.ipv4 matches Some(octets) && !is_loopback(octets@)
}

/// How an interface is shown.
pub open spec fn shown(interface: Interface) -> Listed {
    Listed {
        name: interface.name@,
        ip: dotted(interface.ipv4->0@),
        is_virtual: names_virtual(lowercase(interface.name@)),
    }
}

/// The interfaces that are shown, in order.
pub open spec fn listing(interfaces: Seq<Interface>) -> Seq<Listed>
    decreases interfaces.len(),
{
    if interfaces.len() == 0 {
        seq![]
    } else if is_shown(interfaces.last()) {
        listing(interfaces.drop_last()).push(shown(interfaces.last()))
    } else {
        listing(interfaces.drop_last())
    }
}

/// The views of a list of shown interfaces.
pub open spec fn listed_views(list: Seq<ListedInterface>) -> Seq<Listed> {
    list.map_values(|interface: ListedInterface| interface@)
}

/// The text of an IPv4 address.
pub fn dotted_string(octets: &[u8; 4]) -> (text: String)
    ensures
        text@ == dotted(octets@),
{
    let mut text = String::new();
    push_decimal(&mut text, octets[0] as u128);
    text.push('.');
    push_decimal(&mut text, octets[1] as u128);
    text.push('.');
    push_decimal(&mut text, octets[2] as u128);
    text.push('.');
    push_decimal(&mut text, octets[3] as u128);
    assert(text@ == dotted(octets@));
    text
}

/// Whether a name that is in lower case already is that of an interface without
/// hardware.
pub fn is_virtual_name(lowered: &str) -> (r: bool)
    ensures
        r == names_virtual(lowered@),
{
    let chars = chars_of(lowered);
    contains(&chars, "loopback") || contains(&chars, "wsl") || contains(&chars, "vbox") || contains(
        &chars,
        "virtualbox",
    ) || contains(&chars, "vmware") || contains(&chars, "vethernet") || contains(&chars, "pseudo")
        || contains(&chars, "teredo") || contains(&chars, "isatap")
}

/// Whether a name, in whatever case, is that of an interface without hardware.
pub fn is_virtual_interface(name: &str) -> (r: bool)
    ensures
        r == names_virtual(lowercase(name@)),
{
    is_virtual_name(lower(name).as_str())
}

/// The first usable address in a list of interfaces, or the loopback address.
fn first_usable_ip(interfaces: &[Interface]) -> (ip: String)
    ensures
        ip@ == first_usable(interfaces@),
{
    let mut i: usize = 0;
    assert(interfaces@.skip(0) == interfaces@);
    while i < interfaces.len()
        invariant
            i <= interfaces@.len(),
            first_usable(interfaces@.skip(i as int)) == first_usable(interfaces@),
        decreases interfaces@.len() - i,
    {
        assert(interfaces@.skip(i as int)[0] == interfaces@[i as int]);
        assert(interfaces@.skip(i as int).skip(1) == interfaces@.skip(i + 1));
        if let Some(octets) = &interfaces[i].ipv4 {
            if octets[0] != 127 && !is_virtual_interface(interfaces[i].name.as_str()) {
                return dotted_string(octets);
            }
        }
        i += 1;
    }
    LOCALHOST.to_owned()
}

/// The address of this computer: the one that the system names, else the first usable
/// one of its interfaces, else the loopback address.
pub fn get_robust_local_ip(local: Option<String>, interfaces: Option<Vec<Interface>>) -> (ip:
    String)
    ensures
        ip@ == match (local, interfaces) {
            (Some(local), _) => local@,
            (None, Some(interfaces)) => first_usable(interfaces@),
            (None, None) => LOCALHOST@,
        },
{
    if let Some(ip) = local {
        return ip;
    }
    match interfaces {
        Some(interfaces) => first_usable_ip(&interfaces),
        None => LOCALHOST.to_owned(),
    }
}

/// The interfaces to show to the user.
pub fn get_network_interfaces(interfaces: &[Interface]) -> (list: Vec<ListedInterface>)
    ensures
        listed_views(list@) == listing(interfaces@),
{
    let mut list: Vec<ListedInterface> = Vec::new();
    let mut i: usize = 0;
    while i < interfaces.len()
        invariant
            i <= interfaces@.len(),
            listed_views(list@) == listing(interfaces@.take(i as int)),
        decreases interfaces@.len() - i,
    {
        let interface = &interfaces[i];
        let ghost before = listed_views(list@);
        assert(interfaces@.take(i + 1).drop_last() == interfaces@.take(i as int));
        if let Some(octets) = &interface.ipv4 {
            if octets[0] != 127 {
                list.push(
                    ListedInterface {
                        name: interface.name.clone(),
                        ip: dotted_string(octets),
                        is_virtual: is_virtual_interface(interface.name.as_str()),
                    },
                );
                assert(list@.last()@ == shown(*interface));
                assert(listed_views(list@) == before.push(shown(*interface)));
            }
        }
        i += 1;
    }
    assert(interfaces@.take(i as int) == interfaces@);
    list
}

/// The name and the address of this computer, with a name that stands for a missing
/// one.
pub fn get_local_info(hostname: Option<String>, ip: String) -> (info: LocalInfo)
    ensures
        info.hostname@ == match hostname {
            Some(hostname) => hostname@,
            None => "unknown"@,
        },
        info.ip == ip,
{
    let hostname = match hostname {
        Some(hostname) => hostname,
        None => "unknown".to_owned(),
    };
    LocalInfo { hostname, ip }
}

/// The address that is found among interfaces is that of the first usable one.
pub proof fn law_first_usable(interfaces: Seq<Interface>, i: int)
    requires
        0 <= i < interfaces.len(),
        is_usable(interfaces[i]),
        forall|j: int| 0 <= j < i ==> !is_usable(#[trigger] interfaces[j]),
    ensures
        first_usable(interfaces) == dotted(interfaces[i].ipv4->0@),
    decreases interfaces.len(),
{
    if i > 0 {
        assert(!is_usable(interfaces[0]));
        let rest = interfaces.skip(1);
        assert(rest[i - 1] == interfaces[i]);
        assert forall|j: int| 0 <= j < i - 1 implies !is_usable(#[trigger] rest[j]) by {
            assert(rest[j] == interfaces[j + 1]);
        }
        law_first_usable(rest, i - 1);
    }
}

/// Where no interface is usable, the address is the loopback one.
pub proof fn law_none_usable(interfaces: Seq<Interface>)
    requires
        forall|i: int| 0 <= i < interfaces.len() ==> !is_usable(#[trigger] interfaces[i]),
    ensures
        first_usable(interfaces) == LOCALHOST@,
    decreases interfaces.len(),
{
    if interfaces.len() > 0 {
        assert(!is_usable(interfaces[0]));
        let rest = interfaces.skip(1);
        assert forall|i: int| 0 <= i < rest.len() implies !is_usable(#[trigger] rest[i]) by {
            assert(rest[i] == interfaces[i + 1]);
        }
        law_none_usable(rest);
    }
}

/// No address that is shown leads back to this computer, and none that leads elsewhere
/// is left out.
pub proof fn law_listing(interfaces: Seq<Interface>, listed: Listed)
    ensures
        listing(interfaces).contains(listed) <==> exists|i: int|
            0 <= i < interfaces.len() && is_shown(#[trigger] interfaces[i]) && shown(interfaces[i])
                == listed,
    decreases interfaces.len(),
{
    if interfaces.len() > 0 {
        let init = interfaces.drop_last();
        let last = interfaces.len() - 1;
        law_listing(init, listed);
        if listing(interfaces).contains(listed) {
            if is_shown(interfaces[last]) && shown(interfaces[last]) == listed {
            } else {
                let k = choose|k: int|
                    0 <= k < listing(interfaces).len() && listing(interfaces)[k] == listed;
                assert(listing(init)[k] == listed);
                let i = choose|i: int|
                    0 <= i < init.len() && is_shown(#[trigger] init[i]) && shown(init[i]) == listed;
                assert(interfaces[i] == init[i]);
            }
        }
        if exists|i: int|
            0 <= i < interfaces.len() && is_shown(#[trigger] interfaces[i]) && shown(interfaces[i])
                == listed {
            let i = choose|i: int|
                0 <= i < interfaces.len() && is_shown(#[trigger] interfaces[i]) && shown(
                    interfaces[i],
                ) == listed;
            if i == last {
                assert(listing(interfaces).last() == listed);
            } else {
                assert(init[i] == interfaces[i]);
                let k = choose|k: int| 0 <= k < listing(init).len() && listing(init)[k] == listed;
                assert(listing(interfaces)[k] == listed);
            }
        }
    }
}

/// An interface is virtual where its name, in lower case, holds one of the marks of such
/// interfaces, wherever it stands in the name; and only there.
pub proof fn law_marks_of_virtual_interfaces(before: Seq<char>, mark: Seq<char>, behind: Seq<char>)
    requires
        mark == "loopback"@
            || mark == "wsl"@
            || mark == "vbox"@
            || mark == "virtualbox"@
            || mark == "vmware"@
            || mark == "vethernet"@
            || mark == "pseudo"@
            || mark == "teredo"@
            || mark == "isatap"@,
    ensures
        names_virtual(before + mark + behind),
{
    law_occurs(before, mark, behind, mark);
}

/// A name that holds none of the marks is that of a real interface.
pub proof fn law_real_interface(name: Seq<char>)
    requires
        names_virtual(name),
    ensures
        occurs(name, "loopback"@)
            || occurs(name, "wsl"@)
            || occurs(name, "vbox"@)
            || occurs(name, "virtualbox"@)
            || occurs(name, "vmware"@)
            || occurs(name, "vethernet"@)
            || occurs(name, "pseudo"@)
            || occurs(name, "teredo"@)
            || occurs(name, "isatap"@),
{
}

/// An address can be used just where it is one of IPv4, does not begin with 127, and its
/// interface is not virtual; it is shown where the first two hold.
pub proof fn law_usable(interface: Interface)
    ensures
        interface.ipv4 is None ==> !is_usable(interface) && !is_shown(interface),
        interface.ipv4 matches Some(octets) ==> {
            &&& is_shown(interface) <==> octets@[0] != 127
            &&& is_usable(interface) <==> octets@[0] != 127 && !names_virtual(
                lowercase(interface.name@),
            )
            &&& shown(interface).name == interface.name@
            &&& shown(interface).ip == dotted(octets@)
            &&& shown(interface).is_virtual == names_virtual(lowercase(interface.name@))
        },
{
}

/// The text of an address has its four numbers between dots, in their order.
pub proof fn law_dotted(octets: Seq<u8>)
    requires
        octets.len() == 4,
    ensures
        split(dotted(octets), '.') == seq![
            decimal(octets[0] as nat),
            decimal(octets[1] as nat),
            decimal(octets[2] as nat),
            decimal(octets[3] as nat),
        ],
{
    let a = decimal(octets[0] as nat);
    let b = decimal(octets[1] as nat);
    let c = decimal(octets[2] as nat);
    let d = decimal(octets[3] as nat);
    lemma_no_dot(octets[0] as nat);
    lemma_no_dot(octets[1] as nat);
    lemma_no_dot(octets[2] as nat);
    lemma_no_dot(octets[3] as nat);
    let three = a + seq!['.'] + b + seq!['.'] + c;
    let two = a + seq!['.'] + b;
    law_split_at_separator(three, '.', d);
    law_split_at_separator(two, '.', c);
    law_split_at_separator(a, '.', b);
    law_split_whole(a, '.');
    law_split_whole(b, '.');
    law_split_whole(c, '.');
    law_split_whole(d, '.');
    assert(dotted(octets) == three + seq!['.'] + d);
    assert(three == two + seq!['.'] + c);
}

proof fn lemma_no_dot(n: nat)
    ensures
        !decimal(n).contains('.'),
{
    lemma_decimal(n);
    if decimal(n).contains('.') {
        let j = choose|j: int| 0 <= j < decimal(n).len() && decimal(n)[j] == '.';
        assert(is_digit(decimal(n)[j]));
    }
}

/// The shown interfaces stand in the order in which they were found.
pub proof fn law_listing_keeps_order(a: Seq<Interface>, b: Seq<Interface>)
    ensures
        listing(a + b) == listing(a) + listing(b),
        listing(a).len() <= a.len(),
    decreases b.len(), a.len(),
{
    if a.len() > 0 {
        law_listing_keeps_order(a.drop_last(), Seq::empty());
    }
    if b.len() == 0 {
        assert(a + b == a);
        assert(listing(a) + listing(b) == listing(a));
    } else {
        law_listing_keeps_order(a, b.drop_last());
        assert((a + b).drop_last() == a + b.drop_last());
        assert((a + b).last() == b.last());
        if is_shown(b.last()) {
            assert((listing(a) + listing(b.drop_last())).push(shown(b.last())) == listing(a)
                + listing(b.drop_last()).push(shown(b.last())));
        }
    }
}

/// A shown interface, and a list of them, is seen with all that it says.
pub proof fn law_listed_view(list: Seq<ListedInterface>, i: int)
    requires
        0 <= i < list.len(),
    ensures
        listed_views(list).len() == list.len(),
        listed_views(list)[i].name == list[i].name@,
        listed_views(list)[i].ip == list[i].ip@,
        listed_views(list)[i].is_virtual == list[i].is_virtual,
{
}

} // verus!
