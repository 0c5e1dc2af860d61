//! Choosing a network interface.
use crate::order;
use crate::order::{sort_vec, str_le, Ranked};
use crate::text;
use crate::text::{join_strings, str_eq, trim_str};
use vstd::prelude::*;

verus! {

/// A network interface.
#[derive(Clone, Debug, PartialEq, Eq)]
pub struct NetworkInterface {
    pub name: String,
    pub is_up: bool,
    pub is_loopback: bool,
    pub is_wireless: bool,
}

/// What a [`NetworkInterface`] denotes.
#[verifier::ext_equal]
pub struct NetworkInterfaceView {
    pub name: Seq<char>,
    pub is_up: bool,
    pub is_loopback: bool,
    pub is_wireless: bool,
}

impl DeepView for NetworkInterface {
    type V = NetworkInterfaceView;

    open spec fn deep_view(&self) -> NetworkInterfaceView {
        NetworkInterfaceView {
            name: self.name@,
            is_up: self.is_up,
            is_loopback: self.is_loopback,
            is_wireless: self.is_wireless,
        }
    }
}

impl Ranked for NetworkInterface {
    open spec fn spec_le(a: NetworkInterfaceView, b: NetworkInterfaceView) -> bool {
        if a.is_loopback == b.is_loopback {
            order::text_le(a.name, b.name)
        } else {
            b.is_loopback
        }
    }

    fn at_most(&self, other: &Self) -> (r: bool) {
        if self.is_loopback == other.is_loopback {
            str_le(self.name.as_str(), other.name.as_str())
        } else {
            other.is_loopback
        }
    }
}

/// Why there is no interface to use.
#[derive(Clone, Debug, PartialEq, Eq)]
pub enum InterfaceError {
    /// The system lists no interfaces at all.
    NoDirectory,
    /// There is no interface of that name.
    NotFound(String),
    /// The list of interfaces is empty.
    NoInterfaces,
    /// The configured interface does not exist; what there is instead.
    ConfiguredNotFound(String, String),
    /// None is configured and none could be chosen; what there is.
    AutoSelectionFailed(String),
}

/// What an [`InterfaceError`] denotes.
#[verifier::ext_equal]
pub enum InterfaceErrorView {
    NoDirectory,
    NotFound(Seq<char>),
    NoInterfaces,
    ConfiguredNotFound(Seq<char>, Seq<char>),
    AutoSelectionFailed(Seq<char>),
}

impl DeepView for InterfaceError {
    type V = InterfaceErrorView;

    open spec fn deep_view(&self) -> InterfaceErrorView {
        match self {
            InterfaceError::NoDirectory => InterfaceErrorView::NoDirectory,
            InterfaceError::NotFound(n) => InterfaceErrorView::NotFound(n@),
            InterfaceError::NoInterfaces => InterfaceErrorView::NoInterfaces,
            InterfaceError::ConfiguredNotFound(n, a) => InterfaceErrorView::ConfiguredNotFound(
                n@,
                a@,
            ),
            InterfaceError::AutoSelectionFailed(a) => InterfaceErrorView::AutoSelectionFailed(a@),
        }
    }
}

impl InterfaceErrorView {
    /// The message of the error.
    pub open spec fn message(self) -> Seq<char> {
        match self {
            InterfaceErrorView::NoDirectory =>
                "System network interface directory not found: /sys/class/net"@,
            InterfaceErrorView::NotFound(n) => "Network interface '"@ + n + "' not found"@,
            InterfaceErrorView::NoInterfaces => "No network interfaces found on system"@,
            InterfaceErrorView::ConfiguredNotFound(n, a) => "Configured network interface '"@ + n
                + "' not found.\nAvailable interfaces: "@ + a
                + ".\nPlease update the 'network_interface' setting in your configuration file."@,
            InterfaceErrorView::AutoSelectionFailed(a) =>
                "No network interface configured and auto-selection failed.\nAvailable interfaces: "@
                + a + ".\nPlease specify a 'network_interface' in your configuration file."@,
        }
    }
}

impl InterfaceError {
    /// The message of the error.
    pub fn message(&self) -> (r: String)
        ensures
            r@ == self.deep_view().message(),
    {
        match self {
            InterfaceError::NoDirectory =>
                "System network interface directory not found: /sys/class/net".to_owned(),
            InterfaceError::NotFound(n) => {
                let mut s = "Network interface '".to_owned();
                s.append(n.as_str());
                s.append("' not found");
                s
            },
            InterfaceError::NoInterfaces => "No network interfaces found on system".to_owned(),
            InterfaceError::ConfiguredNotFound(n, a) => {
                let mut s = "Configured network interface '".to_owned();
                s.append(n.as_str());
                s.append("' not found.\nAvailable interfaces: ");
                s.append(a.as_str());
                s.append(
                    ".\nPlease update the 'network_interface' setting in your configuration file.",
                );
                s
            },
            InterfaceError::AutoSelectionFailed(a) => {
                let mut s =
                    "No network interface configured and auto-selection failed.\nAvailable interfaces: ".to_owned();
                s.append(a.as_str());
                s.append(".\nPlease specify a 'network_interface' in your configuration file.");
                s
            },
        }
    }
}

/// An interface as the system describes it: the text of its operational state,
/// where it can be read, and whether it has a wireless entry.
pub open spec fn described(
    name: Seq<char>,
    operstate: Option<Seq<char>>,
    wireless: bool,
) -> NetworkInterfaceView {
    NetworkInterfaceView {
        name,
        is_up: match operstate {
            Some(s) => text::trimmed(s) == "up"@,
            None => false,
        },
        is_loopback: name == "lo"@,
        is_wireless: wireless,
    }
}

/// The interface `interface_name`, where the system has one of that name.
pub fn get_interface_info(
    interface_name: &str,
    exists: bool,
    operstate: &Option<String>,
    wireless: bool,
) -> (r: Result<NetworkInterface, InterfaceError>)
    ensures
        match r {
            Ok(i) => exists && i.deep_view() == described(
                interface_name@,
                operstate.deep_view(),
                wireless,
            ),
            Err(e) => !exists && e.deep_view() == InterfaceErrorView::NotFound(interface_name@),
        },
{
    if !exists {
        return Err(InterfaceError::NotFound(interface_name.to_owned()));
    }
    let is_up = match operstate {
        Some(s) => str_eq(trim_str(s.as_str()), "up"),
        None => false,
    };
    Ok(
        NetworkInterface {
            name: interface_name.to_owned(),
            is_up,
            is_loopback: str_eq(interface_name, "lo"),
            is_wireless: wireless,
        },
    )
}

/// The interface `interface_name`, where the system has one of that name: any
/// that exists will do.
pub fn validate_interface_for_xdp(
    interface_name: &str,
    exists: bool,
    operstate: &Option<String>,
    wireless: bool,
) -> (r: Result<NetworkInterface, InterfaceError>)
    ensures
        match r {
            Ok(i) => exists && i.deep_view() == described(
                interface_name@,
                operstate.deep_view(),
                wireless,
            ),
            Err(e) => !exists && e.deep_view() == InterfaceErrorView::NotFound(interface_name@),
        },
{
    get_interface_info(interface_name, exists, operstate, wireless)
}

/// The interfaces that were found, by name, with loopback interfaces last; an
/// error where the system lists none at all.
pub fn list_network_interfaces(listed: bool, found: Vec<NetworkInterface>) -> (r: Result<
    Vec<NetworkInterface>,
    InterfaceError,
>)
    ensures
        match r {
            Ok(v) => listed && v.deep_view() == order::sort_seq::<NetworkInterface>(
                found.deep_view(),
            ),
            Err(e) => !listed && e.deep_view() == InterfaceErrorView::NoDirectory,
        },
{
    if !listed {
        return Err(InterfaceError::NoDirectory);
    }
    Ok(sort_vec(found))
}

/// The first interface of the list with `p`, if any.
pub open spec fn first_with(
    list: Seq<NetworkInterfaceView>,
    p: spec_fn(NetworkInterfaceView) -> bool,
) -> Option<NetworkInterfaceView>
    decreases list.len(),
{
    if list.len() == 0 {
        None
    } else if p(list.first()) {
        Some(list.first())
    } else {
        first_with(list.drop_first(), p)
    }
}

/// Whether an interface is up and no loopback.
pub open spec fn usable(i: NetworkInterfaceView) -> bool {
    !i.is_loopback && i.is_up
}

/// The interface to use: the first that is up and no loopback, else the first
/// that is no loopback, else the first.
pub open spec fn selected(list: Seq<NetworkInterfaceView>) -> Option<Seq<char>> {
    match first_with(list, |i: NetworkInterfaceView| usable(i)) {
        Some(i) => Some(i.name),
        None => match first_with(list, |i: NetworkInterfaceView| !i.is_loopback) {
            Some(i) => Some(i.name),
            None => if list.len() > 0 {
                Some(list.first().name)
            } else {
                None
            },
        },
    }
}

proof fn lemma_first_with(
    list: Seq<NetworkInterfaceView>,
    p: spec_fn(NetworkInterfaceView) -> bool,
    k: int,
)
    requires
        0 <= k <= list.len(),
        forall|i: int| 0 <= i < k ==> !p(#[trigger] list[i]),
        k < list.len() ==> p(list[k]),
    ensures
        first_with(list, p) == (if k < list.len() {
            Some(list[k])
        } else {
            None
        }),
    decreases k,
{
    if k > 0 {
        assert(!p(list[0]));
        let rest = list.drop_first();
        assert forall|i: int| 0 <= i < k - 1 implies !p(#[trigger] rest[i]) by {
            assert(!p(list[i + 1]));
        }
        lemma_first_with(rest, p, k - 1);
    }
}

/// The interface to use, if there are any.
pub fn auto_select_interface(interfaces: &Vec<NetworkInterface>) -> (r: Result<
    String,
    InterfaceError,
>)
    ensures
        match r {
            Ok(name) => selected(interfaces.deep_view()) == Some(name@),
            Err(e) => interfaces@.len() == 0 && e.deep_view() == InterfaceErrorView::NoInterfaces,
        },
{
    if interfaces.len() == 0 {
        return Err(InterfaceError::NoInterfaces);
    }
    let ghost list = interfaces.deep_view();
    let ghost up = |i: NetworkInterfaceView| usable(i);
    let ghost outer = |i: NetworkInterfaceView| !i.is_loopback;
    let mut i: usize = 0;
    while i < interfaces.len() && !(!interfaces[i].is_loopback && interfaces[i].is_up)
        invariant
            i <= interfaces@.len(),
            list == interfaces.deep_view(),
            forall|j: int| 0 <= j < i ==> !usable(#[trigger] list[j]),
        decreases interfaces.len() - i,
    {
        assert(!usable(list[i as int]));
        i += 1;
    }
    proof {
        lemma_first_with(list, up, i as int);
    }
    if i < interfaces.len() {
        return Ok(interfaces[i].name.clone());
    }
    let mut j: usize = 0;
    while j < interfaces.len() && interfaces[j].is_loopback
        invariant
            j <= interfaces@.len(),
            list == interfaces.deep_view(),
            forall|k: int| 0 <= k < j ==> (#[trigger] list[k]).is_loopback,
        decreases interfaces.len() - j,
    {
        assert(list[j as int].is_loopback);
        j += 1;
    }
    proof {
        lemma_first_with(list, outer, j as int);
    }
    if j < interfaces.len() {
        return Ok(interfaces[j].name.clone());
    }
    Ok(interfaces[0].name.clone())
}

/// An interface as it stands in a message.
pub open spec fn interface_text(i: NetworkInterfaceView) -> Seq<char> {
    i.name + " ("@ + (if i.is_loopback {
        "loopback"@
    } else if i.is_wireless {
        "wireless"@
    } else {
        "ethernet"@
    }) + ":"@ + (if i.is_up {
        "up"@
    } else {
        "down"@
    }) + ")"@
}

/// The interfaces as they stand in a message; `None` where they could not be
/// listed.
pub open spec fn available_text(listing: Option<Seq<NetworkInterfaceView>>) -> Seq<char> {
    match listing {
        Some(list) => if list.len() == 0 {
            "none"@
        } else {
            text::join(list.map_values(|i: NetworkInterfaceView| interface_text(i)), ", "@)
        },
        None => "unable to detect"@,
    }
}

/// The interfaces as they stand in a message.
pub fn get_available_interfaces_string(listing: &Option<Vec<NetworkInterface>>) -> (r: String)
    ensures
        r@ == available_text(listing.deep_view()),
{
    match listing {
        Some(list) => {
            if list.len() == 0 {
                return "none".to_owned();
            }
            let mut parts: Vec<String> = Vec::new();
            let ghost want = list.deep_view().map_values(
                |i: NetworkInterfaceView| interface_text(i),
            );
            let mut i: usize = 0;
            while i < list.len()
                invariant
                    i <= list@.len(),
                    parts@.len() == i,
                    want == list.deep_view().map_values(
                        |i: NetworkInterfaceView| interface_text(i),
                    ),
                    forall|j: int| 0 <= j < i ==> (#[trigger] parts@[j])@ == want[j],
                decreases list.len() - i,
            {
                let iface = &list[i];
                let mut s = iface.name.clone();
                s.append(" (");
                s.append(
                    if iface.is_loopback {
                        "loopback"
                    } else if iface.is_wireless {
                        "wireless"
                    } else {
                        "ethernet"
                    },
                );
                s.append(":");
                s.append(
                    if iface.is_up {
                        "up"
                    } else {
                        "down"
                    },
                );
                s.append(")");
                parts.push(s);
                i += 1;
            }
            assert(parts.deep_view() =~= want);
            join_strings(&parts, ", ")
        },
        None => "unable to detect".to_owned(),
    }
}

/// The interface to use: the configured one where it exists, or one of the
/// listing where none is configured. `listing` is `None` where the interfaces
/// could not be listed.
pub fn select_and_validate_interface(
    configured_interface: Option<&str>,
    exists: bool,
    listing: &Option<Vec<NetworkInterface>>,
) -> (r: Result<String, InterfaceError>)
    ensures
        match (configured_interface, r) {
            (Some(name), Ok(s)) => exists && s@ == name@,
            (Some(name), Err(e)) => !exists && e.deep_view()
                == InterfaceErrorView::ConfiguredNotFound(
                name@,
                available_text(listing.deep_view()),
            ),
            (None, Ok(s)) => listing is Some && selected(listing.deep_view()->0) == Some(s@),
            (None, Err(e)) => (listing is None || listing.deep_view()->0.len() == 0)
                && e.deep_view() == InterfaceErrorView::AutoSelectionFailed(
                available_text(listing.deep_view()),
            ),
        },
{
    match configured_interface {
        Some(name) => match get_interface_info(name, exists, &None, false) {
            Ok(_) => Ok(name.to_owned()),
            Err(_) => Err(
                InterfaceError::ConfiguredNotFound(
                    name.to_owned(),
                    get_available_interfaces_string(listing),
                ),
            ),
        },
        None => {
            if let Some(list) = listing {
                if let Ok(name) = auto_select_interface(list) {
                    return Ok(name);
                }
            }
            Err(InterfaceError::AutoSelectionFailed(get_available_interfaces_string(listing)))
        },
    }
}

/// An interface that is up and no loopback is chosen where there is one, and a
/// loopback only where there is nothing else.
pub proof fn law_selection_prefers_connected(list: Seq<NetworkInterfaceView>)
    ensures
        (exists|i: int| 0 <= i < list.len() && usable(#[trigger] list[i])) ==> exists|i: int|
            0 <= i < list.len() && usable(#[trigger] list[i]) && selected(list) == Some(
                list[i].name,
            ),
        (exists|i: int| 0 <= i < list.len() && !(#[trigger] list[i]).is_loopback) ==> exists|
            i: int,
        |
            0 <= i < list.len() && !(#[trigger] list[i]).is_loopback && selected(list) == Some(
                list[i].name,
            ),
        selected(list) is Some <==> list.len() > 0,
{
    let up = |i: NetworkInterfaceView| usable(i);
    let outer = |i: NetworkInterfaceView| !i.is_loopback;
    lemma_first_with_found(list, up);
    lemma_first_with_found(list, outer);
    if exists|i: int| 0 <= i < list.len() && usable(#[trigger] list[i]) {
        let k = choose|k: int| 0 <= k < list.len() && usable(#[trigger] list[k]);
        assert(up(list[k]));
        let i = choose|i: int|
            0 <= i < list.len() && up(list[i]) && first_with(list, up) == Some(#[trigger] list[i]);
        assert(usable(list[i]) && !list[i].is_loopback);
    }
    if exists|i: int| 0 <= i < list.len() && !(#[trigger] list[i]).is_loopback {
        let k = choose|k: int| 0 <= k < list.len() && !(#[trigger] list[k]).is_loopback;
        assert(outer(list[k]));
        let i = choose|i: int|
            0 <= i < list.len() && outer(list[i]) && first_with(list, outer) == Some(
                #[trigger] list[i],
            );
        assert(!list[i].is_loopback);
        if first_with(list, up) is Some {
            let j = choose|j: int|
                0 <= j < list.len() && up(list[j]) && first_with(list, up) == Some(
                    #[trigger] list[j],
                );
            assert(!list[j].is_loopback);
        }
    }
}

proof fn lemma_first_with_found(
    list: Seq<NetworkInterfaceView>,
    p: spec_fn(NetworkInterfaceView) -> bool,
)
    ensures
        first_with(list, p) is Some ==> exists|i: int|
            0 <= i < list.len() && p(list[i]) && first_with(list, p) == Some(#[trigger] list[i]),
        first_with(list, p) is None ==> forall|i: int|
            0 <= i < list.len() ==> !p(#[trigger] list[i]),
    decreases list.len(),
{
    if list.len() > 0 {
        if p(list.first()) {
            assert(first_with(list, p) == Some(list[0]));
        } else {
            let rest = list.drop_first();
            lemma_first_with_found(rest, p);
            if first_with(rest, p) is Some {
                let k = choose|k: int|
                    0 <= k < rest.len() && p(rest[k]) && first_with(rest, p) == Some(
                        #[trigger] rest[k],
                    );
                assert(list[k + 1] == rest[k]);
            } else {
                assert forall|i: int| 0 <= i < list.len() implies !p(#[trigger] list[i]) by {
                    if i > 0 {
                        assert(list[i] == rest[i - 1]);
                    }
                }
            }
        }
    }
}

/// The choice among interfaces is by position: the first that is up and no
/// loopback; where there is none, the first that is no loopback; and where
/// there is none of these either, the first.
pub proof fn law_first_choice(list: Seq<NetworkInterfaceView>, k: int)
    requires
        0 <= k < list.len(),
    ensures
        !list[k].is_loopback && list[k].is_up && (forall|i: int|
            0 <= i < k ==> (#[trigger] list[i]).is_loopback || !list[i].is_up) ==> selected(list)
            == Some(list[k].name),
        !list[k].is_loopback && (forall|i: int|
            0 <= i < list.len() ==> (#[trigger] list[i]).is_loopback || !list[i].is_up) && (forall|
            i: int,
        |
            0 <= i < k ==> (#[trigger] list[i]).is_loopback) ==> selected(list) == Some(
            list[k].name,
        ),
        (forall|i: int| 0 <= i < list.len() ==> (#[trigger] list[i]).is_loopback) ==> selected(list)
            == Some(list[0].name),
{
    let up = |i: NetworkInterfaceView| usable(i);
    let other = |i: NetworkInterfaceView| !i.is_loopback;
    let n = list.len() as int;
    if !list[k].is_loopback && list[k].is_up && (forall|i: int|
        0 <= i < k ==> (#[trigger] list[i]).is_loopback || !list[i].is_up) {
        lemma_first_with(list, up, k);
    }
    if forall|i: int| 0 <= i < list.len() ==> (#[trigger] list[i]).is_loopback || !list[i].is_up {
        lemma_first_with(list, up, n);
        if !list[k].is_loopback && forall|i: int| 0 <= i < k ==> (#[trigger] list[i]).is_loopback {
            lemma_first_with(list, other, k);
        }
    }
    if forall|i: int| 0 <= i < list.len() ==> (#[trigger] list[i]).is_loopback {
        lemma_first_with(list, up, n);
        lemma_first_with(list, other, n);
    }
}

/// What the system says of an interface: it is up where its state reads so,
/// white space aside, and the loopback is known by its name.
pub proof fn law_described_interfaces(name: Seq<char>, state: Seq<char>, wireless: bool)
    ensures
        ({
            let i = described(name, Some(state), wireless);
            &&& i.name == name
            &&& i.is_up <==> text::trimmed(state) == "up"@
            &&& i.is_loopback <==> name == "lo"@
            &&& i.is_wireless == wireless
        }),
        !described(name, None, wireless).is_up,
        described(name, None, wireless) == (NetworkInterfaceView {
            is_up: false,
            ..described(name, Some(state), wireless)
        }),
{
}

/// An interface in a message: its name, its kind and its state.
pub proof fn law_interface_texts(i: NetworkInterfaceView, list: Seq<NetworkInterfaceView>)
    ensures
        i.is_loopback && i.is_up ==> interface_text(i) == i.name + " ("@ + "loopback"@ + ":"@ + "up"@
            + ")"@,
        i.is_loopback && !i.is_up ==> interface_text(i) == i.name + " ("@ + "loopback"@ + ":"@
            + "down"@ + ")"@,
        !i.is_loopback && i.is_wireless && i.is_up ==> interface_text(i) == i.name + " ("@
            + "wireless"@ + ":"@ + "up"@ + ")"@,
        !i.is_loopback && i.is_wireless && !i.is_up ==> interface_text(i) == i.name + " ("@
            + "wireless"@ + ":"@ + "down"@ + ")"@,
        !i.is_loopback && !i.is_wireless && i.is_up ==> interface_text(i) == i.name + " ("@
            + "ethernet"@ + ":"@ + "up"@ + ")"@,
        !i.is_loopback && !i.is_wireless && !i.is_up ==> interface_text(i) == i.name + " ("@
            + "ethernet"@ + ":"@ + "down"@ + ")"@,
        available_text(None) == "unable to detect"@,
        available_text(Some(Seq::empty())) == "none"@,
        available_text(Some(seq![i])) == interface_text(i),
        list.len() > 0 ==> available_text(Some(list.push(i))) == available_text(Some(list)) + ", "@
            + interface_text(i),
{
    let f = |x: NetworkInterfaceView| interface_text(x);
    assert(seq![i].map_values(f) =~= seq![interface_text(i)]);
    assert(list.push(i).map_values(f) =~= list.map_values(f).push(interface_text(i)));
    text::law_joining(list.map_values(f), interface_text(i), ", "@);
}

/// Loopback interfaces come last, and the others by name.
pub proof fn law_interface_order(a: NetworkInterfaceView, b: NetworkInterfaceView)
    ensures
        !a.is_loopback && b.is_loopback ==> NetworkInterface::spec_le(a, b)
            && !NetworkInterface::spec_le(b, a),
        a.is_loopback == b.is_loopback ==> NetworkInterface::spec_le(a, b) == order::text_le(
            a.name,
            b.name,
        ),
{
}

/// A configured interface is used where it exists, and never replaced by
/// another; without one the listing decides.
pub proof fn law_configured_interface_wins(
    configured: Option<&str>,
    exists: bool,
    listing: &Option<Vec<NetworkInterface>>,
    r: Result<String, InterfaceError>,
)
    requires
        call_ensures(select_and_validate_interface, (configured, exists, listing), r),
    ensures
        configured is Some ==> (r is Ok <==> exists),
        configured is Some && r is Ok ==> r->Ok_0@ == configured->0@,
        configured is Some && r is Err ==> r->Err_0.deep_view().message()
            == "Configured network interface '"@ + configured->0@
            + "' not found.\nAvailable interfaces: "@ + available_text(listing.deep_view())
            + ".\nPlease update the 'network_interface' setting in your configuration file."@,
        configured is None ==> (r is Ok <==> listing is Some && listing.deep_view()->0.len() > 0),
        configured is None && r is Ok ==> selected(listing.deep_view()->0) == Some(r->Ok_0@),
        configured is None && r is Err ==> r->Err_0.deep_view().message()
            == "No network interface configured and auto-selection failed.\nAvailable interfaces: "@
            + available_text(listing.deep_view())
            + ".\nPlease specify a 'network_interface' in your configuration file."@,
{
    if listing is Some {
        law_selection_prefers_connected(listing.deep_view()->0);
    }
}

/// What the errors about interfaces say.
pub proof fn law_interface_messages(n: Seq<char>)
    ensures
        InterfaceErrorView::NoDirectory.message()
            == "System network interface directory not found: /sys/class/net"@,
        InterfaceErrorView::NotFound(n).message() == "Network interface '"@ + n + "' not found"@,
        InterfaceErrorView::NoInterfaces.message() == "No network interfaces found on system"@,
{
}

} // verus!
