//! The command line: which directory is served, where, and to whom.

use vstd::prelude::*;

use crate::text::fields;
use crate::text::number;
use crate::text::parse_number;
use crate::text::same;
use crate::text::split_at_commas;

verus! {

/// The largest user id.
pub const MAX_UID: u32 = 0xffff_ffff;

/// The largest port number.
pub const MAX_PORT: u32 = 0xffff;

/// What an argument, or an option with its value, says.
pub enum Item {
    /// Addresses that may connect.
    AllowIp(Seq<char>),
    /// User ids that may do anything.
    AllowUid(Seq<char>),
    /// The port for WebDAV.
    DavPort(Seq<char>),
    /// An argument that is no option: the directory, or where to listen.
    Plain(Seq<char>),
}

/// What the arguments behind the program's name say, from left to right. An option takes the next
/// argument, whatever it is; without one it says nothing.
pub open spec fn items(args: Seq<Seq<char>>) -> Seq<Item>
    decreases args.len(),
{
    if args.len() == 0 {
        Seq::empty()
    } else if args[0] == "--allow-ip"@ || args[0] == "--allow-uid"@ || args[0] == "--dav-port"@ {
        if args.len() == 1 {
            Seq::empty()
        } else {
            seq![option(args[0], args[1])] + items(args.skip(2))
        }
    } else {
        seq![Item::Plain(args[0])] + items(args.skip(1))
    }
}

/// What the option `name` says with the value `text`.
pub open spec fn option(name: Seq<char>, text: Seq<char>) -> Item {
    if name == "--allow-ip"@ {
        Item::AllowIp(text)
    } else if name == "--allow-uid"@ {
        Item::AllowUid(text)
    } else {
        Item::DavPort(text)
    }
}

/// The user ids in a comma-separated list. What is no user id is passed over.
pub open spec fn uids(parts: Seq<Seq<char>>) -> Seq<u32>
    decreases parts.len(),
{
    if parts.len() == 0 {
        Seq::empty()
    } else {
        match number(parts.last(), MAX_UID as nat) {
            Some(uid) => uids(parts.drop_last()).push(uid as u32),
            None => uids(parts.drop_last()),
        }
    }
}

/// What has been said so far.
pub struct Said {
    pub dir: Option<Seq<char>>,
    pub bind_addr: Option<Seq<char>>,
    pub dav_port: Option<u16>,
    pub allowed_ips: Seq<Seq<char>>,
    pub allowed_uids: Seq<u32>,
}

/// What is said once `item` has been added.
pub open spec fn and_said(said: Said, item: Item) -> Said {
    match item {
        Item::AllowIp(text) => Said { allowed_ips: said.allowed_ips + fields(text), ..said },
        Item::AllowUid(text) => Said {
            allowed_uids: said.allowed_uids + uids(fields(text)),
            ..said
        },
        Item::DavPort(text) => match number(text, MAX_PORT as nat) {
            Some(port) => Said { dav_port: Some(port as u16), ..said },
            None => said,
        },
        Item::Plain(text) => if said.dir is None {
            Said { dir: Some(text), ..said }
        } else {
            Said { bind_addr: Some(text), ..said }
        },
    }
}

/// What `items` say together. The first plain argument is the directory, the last of the others
/// is where to listen. Lists grow with each option; a later port replaces an earlier one.
pub open spec fn said_by(items: Seq<Item>) -> Said
    decreases items.len(),
{
    if items.len() == 0 {
        Said {
            dir: None,
            bind_addr: None,
            dav_port: None,
            allowed_ips: Seq::empty(),
            allowed_uids: Seq::empty(),
        }
    } else {
        and_said(said_by(items.drop_last()), items.last())
    }
}

/// What to serve, where, and to whom.
#[derive(Clone, Debug, PartialEq, Eq)]
pub struct Config {
    /// The directory that is served.
    pub dir: String,
    /// Where NFS clients are listened for.
    pub bind_addr: String,
    /// Whether NFS clients are listened for at all.
    pub nfs: bool,
    /// The port on which WebDAV clients are listened for, if any are.
    pub dav_port: Option<u16>,
    /// The addresses that may connect; all may if there is none.
    pub allowed_ips: Vec<String>,
    /// The user ids that may do anything; all may if there is none.
    pub allowed_uids: Vec<u32>,
}

/// A configuration as a mathematical value.
pub struct ConfigView {
    pub dir: Seq<char>,
    pub bind_addr: Seq<char>,
    pub nfs: bool,
    pub dav_port: Option<u16>,
    pub allowed_ips: Seq<Seq<char>>,
    pub allowed_uids: Seq<u32>,
}

impl View for Config {
    type V = ConfigView;

    open spec fn view(&self) -> ConfigView {
        ConfigView {
            dir: self.dir@,
            bind_addr: self.bind_addr@,
            nfs: self.nfs,
            dav_port: self.dav_port,
            allowed_ips: self.allowed_ips@.map_values(|s: String| s@),
            allowed_uids: self.allowed_uids@,
        }
    }
}

/// The configuration for what was said: by default the current directory, on the NFS port of all
/// addresses. Where only a port for WebDAV was said, NFS is not served.
pub open spec fn configured(said: Said) -> ConfigView {
    ConfigView {
        dir: match said.dir {
            Some(dir) => dir,
            None => "."@,
        },
        bind_addr: match said.bind_addr {
            Some(addr) => addr,
            None => "0.0.0.0:2049"@,
        },
        nfs: said.bind_addr is Some || said.dav_port is None,
        dav_port: said.dav_port,
        allowed_ips: said.allowed_ips,
        allowed_uids: said.allowed_uids,
    }
}

/// Texts as mathematical values.
pub open spec fn texts(args: Seq<String>) -> Seq<Seq<char>> {
    args.map_values(|s: String| s@)
}

/// The user ids in a comma-separated list.
fn parse_uids(text: &str) -> (found: Vec<u32>)
    ensures
        found@ == uids(fields(text@)),
{
    let parts = split_at_commas(text);
    let ghost all = texts(parts@);
    let mut found: Vec<u32> = Vec::new();
    let mut i: usize = 0;
    assert(all.take(0) =~= Seq::<Seq<char>>::empty());
    while i < parts.len()
        invariant
            all == texts(parts@),
            i <= parts.len(),
            found@ == uids(all.take(i as int)),
        decreases parts.len() - i,
    {
        assert(all.take(i + 1).drop_last() =~= all.take(i as int));
        assert(all[i as int] == parts@[i as int]@);
        if let Some(uid) = parse_number(parts[i].as_str(), MAX_UID) {
            found.push(uid);
        }
        i = i + 1;
    }
    assert(all.take(i as int) =~= all);
    found
}

/// Adding to what was said extends the list of things that were said.
proof fn lemma_said_more(done: Seq<Item>, item: Item)
    ensures
        said_by(done.push(item)) == and_said(said_by(done), item),
{
    assert(done.push(item).drop_last() =~= done);
}

/// Reads the command line; `args[0]` is the program's name. `None` where nothing follows it.
pub fn parse_args(args: &Vec<String>) -> (config: Option<Config>)
    ensures
        match config {
            Some(config) => args@.len() >= 2 && config@ == configured(
                said_by(items(texts(args@).skip(1))),
            ),
            None => args@.len() < 2,
        },
{
    if args.len() < 2 {
        return None;
    }
    let ghost all = texts(args@);
    let ghost mut done: Seq<Item> = Seq::empty();
    let mut dir: Option<String> = None;
    let mut bind_addr: Option<String> = None;
    let mut dav_port: Option<u16> = None;
    let mut allowed_ips: Vec<String> = Vec::new();
    let mut allowed_uids: Vec<u32> = Vec::new();
    let mut i: usize = 1;
    assert(texts(allowed_ips@) =~= Seq::<Seq<char>>::empty());
    assert(done + items(all.skip(1)) =~= items(all.skip(1)));
    while i < args.len()
        invariant
            all == texts(args@),
            1 <= i <= args.len(),
            done + items(all.skip(i as int)) == items(all.skip(1)),
            said_by(done) == (Said {
                dir: match dir {
                    Some(s) => Some(s@),
                    None => None,
                },
                bind_addr: match bind_addr {
                    Some(s) => Some(s@),
                    None => None,
                },
                dav_port,
                allowed_ips: texts(allowed_ips@),
                allowed_uids: allowed_uids@,
            }),
        decreases args.len() - i,
    {
        let arg: &str = args[i].as_str();
        let ghost rest = all.skip(i as int);
        assert(rest[0] == arg@);
        let is_ip = same(arg, "--allow-ip");
        let is_uid = same(arg, "--allow-uid");
        let is_port = same(arg, "--dav-port");
        if is_ip || is_uid || is_port {
            i = i + 1;
            if i < args.len() {
                let text: &str = args[i].as_str();
                assert(rest[1] == text@);
                assert(rest.skip(2) =~= all.skip(i + 1));
                let ghost item = option(arg@, text@);
                assert(done + (seq![item] + items(all.skip(i + 1))) =~= done.push(item) + items(
                    all.skip(i + 1),
                ));
                proof {
                    lemma_said_more(done, item);
                    done = done.push(item);
                }
                if is_ip {
                    let mut more = split_at_commas(text);
                    let ghost before = texts(allowed_ips@);
                    let ghost added = texts(more@);
                    allowed_ips.append(&mut more);
                    assert(texts(allowed_ips@) =~= before + added);
                } else if is_uid {
                    let mut more = parse_uids(text);
                    allowed_uids.append(&mut more);
                } else {
                    if let Some(port) = parse_number(text, MAX_PORT) {
                        dav_port = Some(port as u16);
                    }
                }
                i = i + 1;
            } else {
                assert(items(rest) =~= Seq::empty());
                assert(items(all.skip(i as int)) =~= Seq::empty());
            }
        } else {
            assert(rest.skip(1) =~= all.skip(i + 1));
            let ghost item = Item::Plain(arg@);
            assert(done + (seq![item] + items(all.skip(i + 1))) =~= done.push(item) + items(
                all.skip(i + 1),
            ));
            proof {
                lemma_said_more(done, item);
                done = done.push(item);
            }
            if dir.is_none() {
                dir = Some(args[i].clone());
            } else {
                bind_addr = Some(args[i].clone());
            }
            i = i + 1;
        }
    }
    assert(items(all.skip(i as int)) =~= Seq::empty());
    assert(done =~= items(all.skip(1)));
    let nfs = bind_addr.is_some() || dav_port.is_none();
    let config = Config {
        dir: match dir {
            Some(dir) => dir,
            None => ".".to_owned(),
        },
        bind_addr: match bind_addr {
            Some(addr) => addr,
            None => "0.0.0.0:2049".to_owned(),
        },
        nfs,
        dav_port,
        allowed_ips,
        allowed_uids,
    };
    assert(config@.allowed_ips == texts(allowed_ips@));
    Some(config)
}

/// Why a directory cannot be served.
#[derive(Clone, Copy, Debug, PartialEq, Eq, Structural)]
pub enum ExportError {
    /// Nothing is there.
    Missing,
    /// What is there is no directory.
    NotADirectory,
}

/// Decides whether the directory can be served, from whether something is there and whether that
/// is a directory.
pub fn check_export(present: bool, is_dir: bool) -> (result: Result<(), ExportError>)
    ensures
        result == if !present {
            Err::<(), ExportError>(ExportError::Missing)
        } else if !is_dir {
            Err(ExportError::NotADirectory)
        } else {
            Ok(())
        },
{
    if !present {
        return Err(ExportError::Missing);
    }
    if !is_dir {
        return Err(ExportError::NotADirectory);
    }
    Ok(())
}

impl Config {
    /// Whether only some addresses may connect.
    pub fn restricts_ips(&self) -> (yes: bool)
        ensures
            yes == (self@.allowed_ips.len() > 0),
    {
        !self.allowed_ips.is_empty()
    }

    /// Whether only some users may do anything.
    pub fn restricts_uids(&self) -> (yes: bool)
        ensures
            yes == (self@.allowed_uids.len() > 0),
    {
        !self.allowed_uids.is_empty()
    }
}

/// The plain arguments among `items`, in order.
pub open spec fn plain(items: Seq<Item>) -> Seq<Seq<char>>
    decreases items.len(),
{
    if items.len() == 0 {
        Seq::empty()
    } else {
        match items.last() {
            Item::Plain(text) => plain(items.drop_last()).push(text),
            _ => plain(items.drop_last()),
        }
    }
}

/// The first plain argument is the directory. The last one is where to listen, if there is more
/// than one. Options do not matter for either, wherever they stand.
pub proof fn law_plain_arguments(items: Seq<Item>)
    ensures
        said_by(items).dir == if plain(items).len() == 0 {
            None
        } else {
            Some(plain(items)[0])
        },
        said_by(items).bind_addr == if plain(items).len() <= 1 {
            None
        } else {
            Some(plain(items).last())
        },
    decreases items.len(),
{
    if items.len() > 0 {
        law_plain_arguments(items.drop_last());
    }
}

/// Without an option that says otherwise, all addresses and all users are let in.
pub proof fn law_nothing_is_restricted_by_default(items: Seq<Item>)
    ensures
        (forall|i: int| 0 <= i < items.len() ==> !(items[i] is AllowIp)) ==> configured(
            said_by(items),
        ).allowed_ips.len() == 0,
        (forall|i: int| 0 <= i < items.len() ==> !(items[i] is AllowUid)) ==> configured(
            said_by(items),
        ).allowed_uids.len() == 0,
    decreases items.len(),
{
    if items.len() > 0 {
        let before = items.drop_last();
        law_nothing_is_restricted_by_default(before);
        assert(forall|i: int| 0 <= i < before.len() ==> before[i] == items[i]);
    }
}

/// Whether an item is a list that names the address.
pub open spec fn lists_ip(item: Item, ip: Seq<char>) -> bool {
    item matches Item::AllowIp(text) && fields(text).contains(ip)
}

/// Whether one of `parts` is the user id.
pub open spec fn names_uid(parts: Seq<Seq<char>>, uid: u32) -> bool {
    exists|k: int|
        0 <= k < parts.len() && #[trigger] number(parts[k], MAX_UID as nat) == Some(uid as nat)
}

/// Whether an item is a list that names the user id.
pub open spec fn lists_uid(item: Item, uid: u32) -> bool {
    item matches Item::AllowUid(text) && names_uid(fields(text), uid)
}

/// An address is allowed if and only if a list names it.
pub proof fn law_listed_addresses_are_allowed(items: Seq<Item>, ip: Seq<char>)
    ensures
        said_by(items).allowed_ips.contains(ip) <==> exists|i: int|
            0 <= i < items.len() && #[trigger] lists_ip(items[i], ip),
    decreases items.len(),
{
    if items.len() > 0 {
        let rest = items.drop_last();
        let before = said_by(rest).allowed_ips;
        let after = said_by(items).allowed_ips;
        law_listed_addresses_are_allowed(rest, ip);
        let added = match items.last() {
            Item::AllowIp(text) => fields(text),
            _ => Seq::empty(),
        };
        assert(after =~= before + added);
        lemma_contains_either(before, added, ip);
        assert(added.contains(ip) == lists_ip(items[items.len() - 1], ip));
        if before.contains(ip) {
            let i = choose|i: int| 0 <= i < rest.len() && #[trigger] lists_ip(rest[i], ip);
            assert(lists_ip(items[i], ip));
        }
        if exists|i: int| 0 <= i < items.len() && #[trigger] lists_ip(items[i], ip) {
            let i = choose|i: int| 0 <= i < items.len() && #[trigger] lists_ip(items[i], ip);
            if i < rest.len() {
                assert(lists_ip(rest[i], ip));
            }
        }
    }
}

/// What two sequences hold together is what either of them holds.
proof fn lemma_contains_either<T>(a: Seq<T>, b: Seq<T>, x: T)
    ensures
        (a + b).contains(x) <==> a.contains(x) || b.contains(x),
{
    if a.contains(x) {
        let i = choose|i: int| 0 <= i < a.len() && a[i] == x;
        assert((a + b)[i] == x);
    }
    if b.contains(x) {
        let i = choose|i: int| 0 <= i < b.len() && b[i] == x;
        assert((a + b)[a.len() + i] == x);
    }
}

/// A list comes to the user ids that are named in it.
proof fn lemma_uids(parts: Seq<Seq<char>>, uid: u32)
    ensures
        uids(parts).contains(uid) <==> names_uid(parts, uid),
    decreases parts.len(),
{
    if parts.len() > 0 {
        let rest = parts.drop_last();
        let before = uids(rest);
        lemma_uids(rest, uid);
        let added = match number(parts.last(), MAX_UID as nat) {
            Some(n) => seq![n as u32],
            None => Seq::empty(),
        };
        assert(uids(parts) =~= before + added);
        lemma_contains_either(before, added, uid);
        if before.contains(uid) {
            let k = choose|k: int|
                0 <= k < rest.len() && #[trigger] number(rest[k], MAX_UID as nat) == Some(
                    uid as nat,
                );
            assert(number(parts[k], MAX_UID as nat) == Some(uid as nat));
        }
        if added.contains(uid) {
            assert(number(parts[parts.len() - 1], MAX_UID as nat) == Some(uid as nat));
        }
        if names_uid(parts, uid) {
            let k = choose|k: int|
                0 <= k < parts.len() && #[trigger] number(parts[k], MAX_UID as nat) == Some(
                    uid as nat,
                );
            if k < rest.len() {
                assert(number(rest[k], MAX_UID as nat) == Some(uid as nat));
            } else {
                assert(added[0] == uid);
            }
        }
    }
}

/// A user is allowed if and only if a list names its id.
pub proof fn law_listed_users_are_allowed(items: Seq<Item>, uid: u32)
    ensures
        said_by(items).allowed_uids.contains(uid) <==> exists|i: int|
            0 <= i < items.len() && #[trigger] lists_uid(items[i], uid),
    decreases items.len(),
{
    if items.len() > 0 {
        let rest = items.drop_last();
        let before = said_by(rest).allowed_uids;
        let after = said_by(items).allowed_uids;
        law_listed_users_are_allowed(rest, uid);
        let added = match items.last() {
            Item::AllowUid(text) => uids(fields(text)),
            _ => Seq::empty(),
        };
        if let Item::AllowUid(text) = items.last() {
            lemma_uids(fields(text), uid);
        }
        assert(after =~= before + added);
        lemma_contains_either(before, added, uid);
        assert(added.contains(uid) == lists_uid(items[items.len() - 1], uid));
        if before.contains(uid) {
            let i = choose|i: int| 0 <= i < rest.len() && #[trigger] lists_uid(rest[i], uid);
            assert(lists_uid(items[i], uid));
        }
        if exists|i: int| 0 <= i < items.len() && #[trigger] lists_uid(items[i], uid) {
            let i = choose|i: int| 0 <= i < items.len() && #[trigger] lists_uid(items[i], uid);
            if i < rest.len() {
                assert(lists_uid(rest[i], uid));
            }
        }
    }
}

/// At least one protocol is served.
pub proof fn law_something_is_served(said: Said)
    ensures
        configured(said).nfs || configured(said).dav_port is Some,
{
}

/// An option says what its value says, and the arguments behind the value are read on their own.
pub proof fn law_options_take_their_value(text: Seq<char>, rest: Seq<Seq<char>>)
    ensures
        items(seq!["--allow-ip"@, text] + rest) == seq![Item::AllowIp(text)] + items(rest),
        items(seq!["--allow-uid"@, text] + rest) == seq![Item::AllowUid(text)] + items(rest),
        items(seq!["--dav-port"@, text] + rest) == seq![Item::DavPort(text)] + items(rest),
{
    reveal_strlit("--allow-ip");
    reveal_strlit("--allow-uid");
    reveal_strlit("--dav-port");
    assert("--allow-ip"@.len() != "--allow-uid"@.len());
    assert("--dav-port"@.len() != "--allow-uid"@.len());
    assert("--allow-ip"@[2] != "--dav-port"@[2]);
    assert((seq!["--allow-ip"@, text] + rest).skip(2) =~= rest);
    assert((seq!["--allow-uid"@, text] + rest).skip(2) =~= rest);
    assert((seq!["--dav-port"@, text] + rest).skip(2) =~= rest);
}

/// An argument that is no option stands for itself, and the arguments behind it are read on their
/// own.
pub proof fn law_other_arguments_are_plain(arg: Seq<char>, rest: Seq<Seq<char>>)
    requires
        arg != "--allow-ip"@,
        arg != "--allow-uid"@,
        arg != "--dav-port"@,
    ensures
        items(seq![arg] + rest) == seq![Item::Plain(arg)] + items(rest),
{
    assert((seq![arg] + rest).skip(1) =~= rest);
}

/// An option that no value follows says nothing.
pub proof fn law_option_without_a_value_says_nothing(name: Seq<char>)
    requires
        name == "--allow-ip"@ || name == "--allow-uid"@ || name == "--dav-port"@,
    ensures
        items(seq![name]) == items(seq![]),
        items(seq![name]).len() == 0,
{
}

/// Each item adds what it says to what was said before it, and changes nothing else. A list of
/// addresses or users extends the one so far, in order; a port that is none is passed over.
pub proof fn law_each_item_adds_what_it_says(items: Seq<Item>, text: Seq<char>)
    ensures
        said_by(seq![]) == (Said {
            dir: None,
            bind_addr: None,
            dav_port: None,
            allowed_ips: Seq::empty(),
            allowed_uids: Seq::empty(),
        }),
        said_by(items.push(Item::AllowIp(text))) == (Said {
            allowed_ips: said_by(items).allowed_ips + fields(text),
            ..said_by(items)
        }),
        said_by(items.push(Item::AllowUid(text))) == (Said {
            allowed_uids: said_by(items).allowed_uids + uids(fields(text)),
            ..said_by(items)
        }),
        number(text, 65535) matches Some(port) ==> said_by(items.push(Item::DavPort(text))) == (
        Said { dav_port: Some(port as u16), ..said_by(items) }),
        number(text, 65535) is None ==> said_by(items.push(Item::DavPort(text))) == said_by(items),
        said_by(items).dir is None ==> said_by(items.push(Item::Plain(text))) == (Said {
            dir: Some(text),
            ..said_by(items)
        }),
        said_by(items).dir is Some ==> said_by(items.push(Item::Plain(text))) == (Said {
            bind_addr: Some(text),
            ..said_by(items)
        }),
{
    lemma_said_more(items, Item::AllowIp(text));
    lemma_said_more(items, Item::AllowUid(text));
    lemma_said_more(items, Item::DavPort(text));
    lemma_said_more(items, Item::Plain(text));
}

/// The user ids of a list stand in its order, each as often as it is named; a part that is no
/// 32-bit number stands for none.
pub proof fn law_user_ids_stand_in_order(parts: Seq<Seq<char>>, part: Seq<char>)
    ensures
        uids(seq![]) == Seq::<u32>::empty(),
        number(part, 0xffff_ffff) matches Some(uid) ==> uids(parts.push(part)) == uids(parts).push(
            uid as u32,
        ),
        number(part, 0xffff_ffff) is None ==> uids(parts.push(part)) == uids(parts),
{
    assert(parts.push(part).drop_last() =~= parts);
}

/// What was said is what is done; what was not said is the current directory, and the NFS port of
/// all addresses. NFS is left out exactly where a port for WebDAV was said and no address.
pub proof fn law_configuration_is_what_was_said(said: Said)
    ensures
        said.dir matches Some(dir) ==> configured(said).dir == dir,
        said.dir is None ==> configured(said).dir == "."@,
        said.bind_addr matches Some(addr) ==> configured(said).bind_addr == addr,
        said.bind_addr is None ==> configured(said).bind_addr == "0.0.0.0:2049"@,
        !configured(said).nfs <==> said.dav_port is Some && said.bind_addr is None,
        configured(said).dav_port == said.dav_port,
        configured(said).allowed_ips == said.allowed_ips,
        configured(said).allowed_uids == said.allowed_uids,
{
}

} // verus!
