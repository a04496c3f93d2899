use vstd::prelude::*;

use crate::common::text::{chars_of, push_str, string_from_chars};

verus! {

pub open spec fn is_ascii_upper(c: char) -> bool {
    'A' <= c <= 'Z'
}

pub open spec fn is_ascii_lower(c: char) -> bool {
    'a' <= c <= 'z'
}

/// `c` with ASCII upper case letters turned to lower case.
pub open spec fn ascii_lower(c: char) -> char {
    if is_ascii_upper(c) {
        ((c as u8) + 32) as char
    } else {
        c
    }
}

/// The snake case form of `s` from index `i` on: every character lowered, and
/// an underscore before each upper case letter but the first character.
pub open spec fn snake_from(s: Seq<char>, i: int) -> Seq<char>
    decreases s.len() - i,
{
    if i < 0 || i >= s.len() {
        Seq::empty()
    } else if i > 0 && is_ascii_upper(s[i]) {
        seq!['_', ascii_lower(s[i])] + snake_from(s, i + 1)
    } else {
        seq![ascii_lower(s[i])] + snake_from(s, i + 1)
    }
}

/// The snake case form of an upper camel case name, or nothing when the name
/// is empty, starts with a lower case letter or has an underscore.
pub open spec fn camel_to_snake(s: Seq<char>) -> Option<Seq<char>> {
    if s.len() == 0 || is_ascii_lower(s[0]) || s.contains('_') {
        None
    } else {
        Some(snake_from(s, 0))
    }
}

fn lower_ascii(c: char) -> (r: char)
    ensures
        r == ascii_lower(c),
{
    if 'A' <= c && c <= 'Z' {
        ((c as u8) + 32) as char
    } else {
        c
    }
}

/// Turns an upper camel case name such as `LoginStart` into snake case
/// (`login_start`).
pub fn camel_case_to_snake_case(input: &str) -> (r: Option<String>)
    ensures
        match camel_to_snake(input@) {
            Some(s) => r matches Some(out) && out@ == s,
            None => r is None,
        },
{
    let chars = chars_of(input);
    if chars.len() == 0 {
        return None;
    }
    if 'a' <= chars[0] && chars[0] <= 'z' {
        return None;
    }
    let mut i: usize = 0;
    while i < chars.len()
        invariant
            i <= chars@.len(),
            chars@ == input@,
            forall|j: int| 0 <= j < i ==> chars@[j] != '_',
        decreases chars.len() - i,
    {
        if chars[i] == '_' {
            assert(input@.contains('_')) by {
                assert(input@[i as int] == '_');
            }
            return None;
        }
        i = i + 1;
    }
    assert(!input@.contains('_'));
    let mut out: Vec<char> = Vec::new();
    let mut k: usize = 0;
    while k < chars.len()
        invariant
            k <= chars@.len(),
            chars@ == input@,
            out@ + snake_from(chars@, k as int) == snake_from(chars@, 0),
        decreases chars.len() - k,
    {
        let c = chars[k];
        let ghost before = out@;
        if k > 0 && 'A' <= c && c <= 'Z' {
            out.push('_');
            out.push(lower_ascii(c));
            assert(before + (seq!['_', ascii_lower(c)] + snake_from(chars@, k + 1)) =~= out@ + snake_from(chars@, k + 1));
        } else {
            out.push(lower_ascii(c));
            assert(before + (seq![ascii_lower(c)] + snake_from(chars@, k + 1)) =~= out@ + snake_from(chars@, k + 1));
        }
        k = k + 1;
    }
    assert(snake_from(chars@, k as int) =~= Seq::<char>::empty());
    assert(out@ =~= snake_from(chars@, 0));
    Some(string_from_chars(out))
}

} // verus!

verus! {

/// One packet of the game's packet report.
#[derive(Debug, Clone, Copy, PartialEq, Eq)]
pub struct Packet {
    pub protocol_id: u8,
}

/// The packets of one connection state in the game's packet report, by
/// direction, each with its namespaced name.
#[derive(Debug)]
pub struct Sides {
    pub clientbound: Option<Vec<(String, Packet)>>,
    pub serverbound: Option<Vec<(String, Packet)>>,
}

/// The direction of a packet.
#[derive(Debug, Clone, Copy, PartialEq, Eq, Structural, Hash)]
pub enum Direction {
    Clientbound,
    Serverbound,
}

/// The direction that a declaration's marker names: `CB` or `SB`.
pub open spec fn direction_of(marker: Seq<char>) -> Option<Direction> {
    if marker == "CB"@ {
        Some(Direction::Clientbound)
    } else if marker == "SB"@ {
        Some(Direction::Serverbound)
    } else {
        None
    }
}

impl Direction {
    /// Reads a direction marker.
    pub fn parse(marker: &str) -> (r: Option<Direction>)
        ensures
            r == direction_of(marker@),
    {
        let owned = marker.to_owned();
        if owned == "CB".to_owned() {
            Some(Direction::Clientbound)
        } else if owned == "SB".to_owned() {
            Some(Direction::Serverbound)
        } else {
            None
        }
    }
}

/// The id of the first entry of `entries` named `name`.
pub open spec fn find_in_entries(entries: Seq<(String, Packet)>, name: Seq<char>) -> Option<u8>
    decreases entries.len(),
{
    if entries.len() == 0 {
        None
    } else if entries[0].0@ == name {
        Some(entries[0].1.protocol_id)
    } else {
        find_in_entries(entries.drop_first(), name)
    }
}

/// The entries of one direction of a state, or none.
pub open spec fn side_entries(side: Option<Vec<(String, Packet)>>) -> Seq<(String, Packet)> {
    match side {
        Some(v) => v@,
        None => Seq::empty(),
    }
}

/// The entries of `sides` in `direction`.
pub open spec fn entries_of(sides: Sides, direction: Direction) -> Seq<(String, Packet)> {
    match direction {
        Direction::Clientbound => side_entries(sides.clientbound),
        Direction::Serverbound => side_entries(sides.serverbound),
    }
}

/// The id of the first packet named `name` in `direction`, going through the
/// states in order.
pub open spec fn find_id(report: Seq<(String, Sides)>, name: Seq<char>, direction: Direction) -> Option<u8>
    decreases report.len(),
{
    if report.len() == 0 {
        None
    } else {
        match find_in_entries(entries_of(report[0].1, direction), name) {
            Some(id) => Some(id),
            None => find_id(report.drop_first(), name, direction),
        }
    }
}

/// The id of the first packet named `name` in either direction, going
/// through the states in order and, in each, through the clientbound packets
/// before the serverbound ones.
pub open spec fn find_id_any(report: Seq<(String, Sides)>, name: Seq<char>) -> Option<u8>
    decreases report.len(),
{
    if report.len() == 0 {
        None
    } else {
        match find_in_entries(entries_of(report[0].1, Direction::Clientbound), name) {
            Some(id) => Some(id),
            None => match find_in_entries(entries_of(report[0].1, Direction::Serverbound), name) {
                Some(id) => Some(id),
                None => find_id_any(report.drop_first(), name),
            },
        }
    }
}

/// Looking a name up in a list of entries finds an id exactly when some entry
/// has that name, and the id found is that of the first entry with the name.
pub proof fn lemma_find_in_entries(entries: Seq<(String, Packet)>, name: Seq<char>)
    ensures
        find_in_entries(entries, name) is Some <==> exists|j: int| 0 <= j < entries.len() && (#[trigger] entries[j]).0@ == name,
        find_in_entries(entries, name) matches Some(id) ==> exists|j: int|
            0 <= j < entries.len() && (#[trigger] entries[j]).0@ == name && entries[j].1.protocol_id == id
                && forall|k: int| 0 <= k < j ==> (#[trigger] entries[k]).0@ != name,
    decreases entries.len(),
{
    if entries.len() > 0 {
        let rest = entries.drop_first();
        lemma_find_in_entries(rest, name);
        assert forall|j: int| 1 <= j < entries.len() implies #[trigger] entries[j] == rest[j - 1] by {}
        if entries[0].0@ != name {
            if let Some(id) = find_in_entries(rest, name) {
                let j = choose|j: int|
                    0 <= j < rest.len() && (#[trigger] rest[j]).0@ == name && rest[j].1.protocol_id == id
                        && forall|k: int| 0 <= k < j ==> (#[trigger] rest[k]).0@ != name;
                assert(entries[j + 1] == rest[j]);
                assert forall|k: int| 0 <= k < j + 1 implies (#[trigger] entries[k]).0@ != name by {
                    if k > 0 {
                        assert(entries[k] == rest[k - 1]);
                    }
                }
            }
            if exists|j: int| 0 <= j < entries.len() && (#[trigger] entries[j]).0@ == name {
                let j = choose|j: int| 0 <= j < entries.len() && (#[trigger] entries[j]).0@ == name;
                assert(rest[j - 1] == entries[j]);
            }
        }
    }
}

/// A lookup in one direction finds an id exactly when some state has a packet
/// of that name in that direction, and the id found belongs to such a packet.
pub proof fn lemma_find_id(report: Seq<(String, Sides)>, name: Seq<char>, direction: Direction)
    ensures
        find_id(report, name, direction) is Some <==> exists|i: int, j: int|
            0 <= i < report.len() && 0 <= j < entries_of(report[i].1, direction).len()
                && (#[trigger] entries_of(report[i].1, direction)[j]).0@ == name,
        find_id(report, name, direction) matches Some(id) ==> exists|i: int, j: int|
            0 <= i < report.len() && 0 <= j < entries_of(report[i].1, direction).len()
                && (#[trigger] entries_of(report[i].1, direction)[j]).0@ == name
                && entries_of(report[i].1, direction)[j].1.protocol_id == id,
    decreases report.len(),
{
    if report.len() > 0 {
        let rest = report.drop_first();
        let here = entries_of(report[0].1, direction);
        lemma_find_id(rest, name, direction);
        lemma_find_in_entries(here, name);
        match find_in_entries(here, name) {
            Some(id) => {
                let j = choose|j: int| 0 <= j < here.len() && (#[trigger] here[j]).0@ == name && here[j].1.protocol_id == id
                    && forall|k: int| 0 <= k < j ==> (#[trigger] here[k]).0@ != name;
                assert(entries_of(report[0].1, direction)[j] == here[j]);
            },
            None => {
                if let Some(id) = find_id(rest, name, direction) {
                    let (i, j) = choose|i: int, j: int|
                        0 <= i < rest.len() && 0 <= j < entries_of(rest[i].1, direction).len()
                            && (#[trigger] entries_of(rest[i].1, direction)[j]).0@ == name
                            && entries_of(rest[i].1, direction)[j].1.protocol_id == id;
                    assert(report[i + 1] == rest[i]);
                    assert(entries_of(report[i + 1].1, direction)[j] == entries_of(rest[i].1, direction)[j]);
                }
                if exists|i: int, j: int|
                    0 <= i < report.len() && 0 <= j < entries_of(report[i].1, direction).len()
                        && (#[trigger] entries_of(report[i].1, direction)[j]).0@ == name {
                    let (i, j) = choose|i: int, j: int|
                        0 <= i < report.len() && 0 <= j < entries_of(report[i].1, direction).len()
                            && (#[trigger] entries_of(report[i].1, direction)[j]).0@ == name;
                    if i == 0 {
                        assert(here[j].0@ == name);
                    } else {
                        assert(rest[i - 1] == report[i]);
                        assert(entries_of(rest[i - 1].1, direction)[j] == entries_of(report[i].1, direction)[j]);
                    }
                }
            },
        }
    }
}

/// A lookup in either direction finds an id exactly when some state has a
/// packet of that name, clientbound or serverbound, and the id found belongs
/// to such a packet; so a name that only a serverbound packet carries is found
/// with that packet's id.
pub proof fn lemma_find_id_any(report: Seq<(String, Sides)>, name: Seq<char>)
    ensures
        find_id_any(report, name) is Some <==> exists|i: int, d: Direction, j: int|
            0 <= i < report.len() && 0 <= j < entries_of(report[i].1, d).len()
                && (#[trigger] entries_of(report[i].1, d)[j]).0@ == name,
        find_id_any(report, name) matches Some(id) ==> exists|i: int, d: Direction, j: int|
            0 <= i < report.len() && 0 <= j < entries_of(report[i].1, d).len()
                && (#[trigger] entries_of(report[i].1, d)[j]).0@ == name
                && entries_of(report[i].1, d)[j].1.protocol_id == id,
        (forall|i: int, j: int|
            0 <= i < report.len() && 0 <= j < entries_of(report[i].1, Direction::Clientbound).len()
                ==> (#[trigger] entries_of(report[i].1, Direction::Clientbound)[j]).0@ != name)
            ==> find_id_any(report, name) == find_id(report, name, Direction::Serverbound),
    decreases report.len(),
{
    lemma_find_id(report, name, Direction::Serverbound);
    if report.len() > 0 {
        let rest = report.drop_first();
        let cb = entries_of(report[0].1, Direction::Clientbound);
        let sb = entries_of(report[0].1, Direction::Serverbound);
        lemma_find_id_any(rest, name);
        lemma_find_in_entries(cb, name);
        lemma_find_in_entries(sb, name);
        assert forall|i: int| 1 <= i < report.len() implies #[trigger] report[i] == rest[i - 1] by {}
        if let Some(id) = find_id_any(report, name) {
            if find_in_entries(cb, name) is Some {
                let j = choose|j: int| 0 <= j < cb.len() && (#[trigger] cb[j]).0@ == name && cb[j].1.protocol_id == id
                    && forall|k: int| 0 <= k < j ==> (#[trigger] cb[k]).0@ != name;
                assert(entries_of(report[0].1, Direction::Clientbound)[j] == cb[j]);
            } else if find_in_entries(sb, name) is Some {
                let j = choose|j: int| 0 <= j < sb.len() && (#[trigger] sb[j]).0@ == name && sb[j].1.protocol_id == id
                    && forall|k: int| 0 <= k < j ==> (#[trigger] sb[k]).0@ != name;
                assert(entries_of(report[0].1, Direction::Serverbound)[j] == sb[j]);
            } else {
                let (i, d, j) = choose|i: int, d: Direction, j: int|
                    0 <= i < rest.len() && 0 <= j < entries_of(rest[i].1, d).len()
                        && (#[trigger] entries_of(rest[i].1, d)[j]).0@ == name
                        && entries_of(rest[i].1, d)[j].1.protocol_id == id;
                assert(report[i + 1] == rest[i]);
                assert(entries_of(report[i + 1].1, d)[j] == entries_of(rest[i].1, d)[j]);
            }
        }
        if exists|i: int, d: Direction, j: int|
            0 <= i < report.len() && 0 <= j < entries_of(report[i].1, d).len()
                && (#[trigger] entries_of(report[i].1, d)[j]).0@ == name {
            let (i, d, j) = choose|i: int, d: Direction, j: int|
                0 <= i < report.len() && 0 <= j < entries_of(report[i].1, d).len()
                    && (#[trigger] entries_of(report[i].1, d)[j]).0@ == name;
            if i == 0 {
                match d {
                    Direction::Clientbound => assert(cb[j].0@ == name),
                    Direction::Serverbound => assert(sb[j].0@ == name),
                }
            } else {
                assert(entries_of(rest[i - 1].1, d)[j] == entries_of(report[i].1, d)[j]);
            }
        }
        if forall|i: int, j: int|
            0 <= i < report.len() && 0 <= j < entries_of(report[i].1, Direction::Clientbound).len()
                ==> (#[trigger] entries_of(report[i].1, Direction::Clientbound)[j]).0@ != name {
            assert forall|i: int, j: int|
                0 <= i < rest.len() && 0 <= j < entries_of(rest[i].1, Direction::Clientbound).len()
                    implies (#[trigger] entries_of(rest[i].1, Direction::Clientbound)[j]).0@ != name by {
                assert(report[i + 1] == rest[i]);
                assert(entries_of(report[i + 1].1, Direction::Clientbound)[j] == entries_of(rest[i].1, Direction::Clientbound)[j]);
            }
            assert forall|j: int| 0 <= j < cb.len() implies (#[trigger] cb[j]).0@ != name by {
                assert(entries_of(report[0].1, Direction::Clientbound)[j] == cb[j]);
            }
        }
    }
}

fn find_in_side(side: &Option<Vec<(String, Packet)>>, name: &String) -> (r: Option<u8>)
    ensures
        r == find_in_entries(side_entries(*side), name@),
{
    match side {
        None => None,
        Some(entries) => {
            let mut i: usize = 0;
            assert(entries@.skip(0) =~= entries@);
            while i < entries.len()
                invariant
                    i <= entries@.len(),
                    side_entries(*side) == entries@,
                    find_in_entries(entries@, name@) == find_in_entries(entries@.skip(i as int), name@),
                decreases entries.len() - i,
            {
                assert(entries@.skip(i as int).drop_first() =~= entries@.skip(i + 1));
                assert(entries@.skip(i as int)[0] == entries@[i as int]);
                if entries[i].0 == *name {
                    return Some(entries[i].1.protocol_id);
                }
                i = i + 1;
            }
            None
        },
    }
}

/// Looks a packet's protocol id up by its namespaced name and direction.
pub fn find_protocol_id(packet_states: &Vec<(String, Sides)>, packet_name: &str, direction: Direction) -> (r: Option<u8>)
    ensures
        r == find_id(packet_states@, packet_name@, direction),
{
    let name = packet_name.to_owned();
    let mut i: usize = 0;
    assert(packet_states@.skip(0) =~= packet_states@);
    while i < packet_states.len()
        invariant
            i <= packet_states@.len(),
            name@ == packet_name@,
            find_id(packet_states@, name@, direction) == find_id(packet_states@.skip(i as int), name@, direction),
        decreases packet_states.len() - i,
    {
        assert(packet_states@.skip(i as int).drop_first() =~= packet_states@.skip(i + 1));
        assert(packet_states@.skip(i as int)[0] == packet_states@[i as int]);
        let sides = &packet_states[i].1;
        let found = match direction {
            Direction::Clientbound => find_in_side(&sides.clientbound, &name),
            Direction::Serverbound => find_in_side(&sides.serverbound, &name),
        };
        if found.is_some() {
            return found;
        }
        i = i + 1;
    }
    None
}

/// Looks a packet's protocol id up by its namespaced name in either
/// direction.
pub fn find_protocol_id_any(packet_states: &Vec<(String, Sides)>, packet_name: &str) -> (r: Option<u8>)
    ensures
        r == find_id_any(packet_states@, packet_name@),
{
    let name = packet_name.to_owned();
    let mut i: usize = 0;
    assert(packet_states@.skip(0) =~= packet_states@);
    while i < packet_states.len()
        invariant
            i <= packet_states@.len(),
            name@ == packet_name@,
            find_id_any(packet_states@, name@) == find_id_any(packet_states@.skip(i as int), name@),
        decreases packet_states.len() - i,
    {
        assert(packet_states@.skip(i as int).drop_first() =~= packet_states@.skip(i + 1));
        assert(packet_states@.skip(i as int)[0] == packet_states@[i as int]);
        let sides = &packet_states[i].1;
        let found = find_in_side(&sides.clientbound, &name);
        if found.is_some() {
            return found;
        }
        let found = find_in_side(&sides.serverbound, &name);
        if found.is_some() {
            return found;
        }
        i = i + 1;
    }
    None
}

} // verus!

verus! {

/// A packet as a packet list declares it: its type name and, optionally,
/// its name in the packet report.
#[derive(Debug)]
pub struct PacketEntry {
    pub ident: String,
    pub internal_name: Option<String>,
}

/// A packet entry with the state, direction and layer it is declared under.
#[derive(Debug)]
pub struct PacketDeclaration {
    pub state: String,
    pub is_networking_side: bool,
    pub direction: Direction,
    pub entry: PacketEntry,
}

/// A declared packet with the id found for it in the packet report.
#[derive(Debug)]
pub struct PacketWithMetadata {
    pub ident: String,
    pub internal_name: String,
    pub id: u8,
    pub state: String,
    pub direction: Direction,
    pub is_networking_layer: bool,
}

impl PacketWithMetadata {
    pub fn new(
        ident: String,
        internal_name: String,
        id: u8,
        state: String,
        direction: Direction,
        is_networking_layer: bool,
    ) -> (r: Self)
        ensures
            r == (PacketWithMetadata { ident, internal_name, id, state, direction, is_networking_layer }),
    {
        Self { ident, internal_name, id, state, direction, is_networking_layer }
    }
}

/// Why a packet could not be resolved.
#[derive(Debug, Clone, Copy, PartialEq, Eq)]
pub enum ResolveFailure {
    /// The type name is not upper camel case and no report name was given.
    InvalidName,
    /// The report has no packet of that name.
    UnknownPacket,
}

/// A failure to resolve a packet, with the name it concerns: the type name
/// for an invalid name, the report name (without namespace) otherwise.
#[derive(Debug)]
pub struct ResolveError {
    pub kind: ResolveFailure,
    pub name: String,
}

/// The report name of an entry without namespace: the name given, or the
/// snake case form of its type name.
pub open spec fn internal_ident(entry: PacketEntry) -> Option<Seq<char>> {
    match entry.internal_name {
        Some(n) => Some(n@),
        None => camel_to_snake(entry.ident@),
    }
}

/// `name` with the `minecraft` namespace added when it has none.
pub open spec fn qualified(name: Seq<char>) -> Seq<char> {
    if name.contains(':') {
        name
    } else {
        "minecraft:"@ + name
    }
}

/// The report name (without namespace) and id of a declared packet, or why
/// there is none.
pub open spec fn resolve_one(d: PacketDeclaration, report: Seq<(String, Sides)>) -> Result<(Seq<char>, u8), (ResolveFailure, Seq<char>)> {
    match internal_ident(d.entry) {
        None => Err((ResolveFailure::InvalidName, d.entry.ident@)),
        Some(internal) => match find_id(report, qualified(internal), d.direction) {
            Some(id) => Ok((internal, id)),
            None => Err((ResolveFailure::UnknownPacket, internal)),
        },
    }
}

/// Whether `s` has the character `c`.
pub fn contains_char(s: &str, c: char) -> (r: bool)
    ensures
        r == s@.contains(c),
{
    let chars = chars_of(s);
    let mut i: usize = 0;
    while i < chars.len()
        invariant
            i <= chars@.len(),
            chars@ == s@,
            forall|j: int| 0 <= j < i ==> chars@[j] != c,
        decreases chars.len() - i,
    {
        if chars[i] == c {
            assert(s@[i as int] == c);
            return true;
        }
        i = i + 1;
    }
    false
}

/// `name` with the `minecraft` namespace added when it has none.
pub fn qualify(name: &str) -> (r: String)
    ensures
        r@ == qualified(name@),
{
    if contains_char(name, ':') {
        name.to_owned()
    } else {
        let mut out: Vec<char> = Vec::new();
        push_str(&mut out, "minecraft:");
        push_str(&mut out, name);
        string_from_chars(out)
    }
}

/// A name that already has a namespace is left as it is; any other name gets
/// the `minecraft:` prefix. Either way the result has a namespace, so
/// qualifying twice is the same as qualifying once.
pub proof fn lemma_qualified(name: Seq<char>)
    ensures
        name.contains(':') ==> qualified(name) == name,
        !name.contains(':') ==> qualified(name) == seq!['m', 'i', 'n', 'e', 'c', 'r', 'a', 'f', 't', ':'] + name,
        qualified(name).contains(':'),
        qualified(qualified(name)) == qualified(name),
{
    reveal_strlit("minecraft:");
    let prefix = seq!['m', 'i', 'n', 'e', 'c', 'r', 'a', 'f', 't', ':'];
    assert("minecraft:"@ =~= prefix);
    if !name.contains(':') {
        assert((prefix + name)[9] == ':');
    }
}

/// Resolves one declared packet.
fn resolve_declaration(d: &PacketDeclaration, report: &Vec<(String, Sides)>) -> (r: Result<PacketWithMetadata, ResolveError>)
    ensures
        match resolve_one(*d, report@) {
            Ok((internal, id)) => r matches Ok(m) && m.ident@ == d.entry.ident@ && m.internal_name@ == internal && m.id == id
                && m.state@ == d.state@ && m.direction == d.direction && m.is_networking_layer == d.is_networking_side,
            Err((kind, name)) => r matches Err(e) && e.kind == kind && e.name@ == name,
        },
{
    let internal = match &d.entry.internal_name {
        Some(n) => n.clone(),
        None => match camel_case_to_snake_case(d.entry.ident.as_str()) {
            Some(s) => s,
            None => {
                return Err(ResolveError { kind: ResolveFailure::InvalidName, name: d.entry.ident.clone() });
            },
        },
    };
    let name = qualify(internal.as_str());
    match find_protocol_id(report, name.as_str(), d.direction) {
        Some(id) => Ok(
            PacketWithMetadata::new(
                d.entry.ident.clone(),
                internal,
                id,
                d.state.clone(),
                d.direction,
                d.is_networking_side,
            ),
        ),
        None => Err(ResolveError { kind: ResolveFailure::UnknownPacket, name: internal }),
    }
}

/// Resolves every declared packet against the packet report, in order, or
/// reports the first that fails.
pub fn resolve_packets(declarations: &Vec<PacketDeclaration>, report: &Vec<(String, Sides)>) -> (r: Result<Vec<PacketWithMetadata>, ResolveError>)
    ensures
        match r {
            Ok(all) => {
                &&& all@.len() == declarations@.len()
                &&& forall|k: int| 0 <= k < all@.len() ==> {
                    let d = #[trigger] declarations@[k];
                    let m = all@[k];
                    resolve_one(d, report@) == Ok::<(Seq<char>, u8), (ResolveFailure, Seq<char>)>((m.internal_name@, m.id))
                        && m.ident@ == d.entry.ident@ && m.state@ == d.state@ && m.direction == d.direction
                        && m.is_networking_layer == d.is_networking_side
                }
            },
            Err(e) => exists|k: int|
                0 <= k < declarations@.len() && (forall|j: int| 0 <= j < k ==> #[trigger] resolve_one(declarations@[j], report@) is Ok)
                    && #[trigger] resolve_one(declarations@[k], report@) == Err::<(Seq<char>, u8), (ResolveFailure, Seq<char>)>((e.kind, e.name@)),
        },
{
    let mut all: Vec<PacketWithMetadata> = Vec::new();
    let mut i: usize = 0;
    while i < declarations.len()
        invariant
            i <= declarations@.len(),
            all@.len() == i,
            forall|k: int| 0 <= k < i ==> {
                let d = #[trigger] declarations@[k];
                let m = all@[k];
                resolve_one(d, report@) == Ok::<(Seq<char>, u8), (ResolveFailure, Seq<char>)>((m.internal_name@, m.id))
                    && m.ident@ == d.entry.ident@ && m.state@ == d.state@ && m.direction == d.direction
                    && m.is_networking_layer == d.is_networking_side
            },
        decreases declarations.len() - i,
    {
        match resolve_declaration(&declarations[i], report) {
            Ok(m) => {
                all.push(m);
            },
            Err(e) => {
                assert(forall|j: int| 0 <= j < i ==> #[trigger] resolve_one(declarations@[j], report@) is Ok);
                return Err(e);
            },
        }
        i = i + 1;
    }
    Ok(all)
}

/// The report name and id for a packet type of the given name, with an
/// optional explicit report name: the explicit name or the snake case form,
/// namespaced, looked up in either direction.
pub open spec fn packet_id_of(explicit: Option<Seq<char>>, ident: Seq<char>, report: Seq<(String, Sides)>) -> Result<(Seq<char>, u8), (ResolveFailure, Seq<char>)> {
    let name = match explicit {
        Some(n) => Some(n),
        None => camel_to_snake(ident),
    };
    match name {
        None => Err((ResolveFailure::InvalidName, ident)),
        Some(n) => match find_id_any(report, qualified(n)) {
            Some(id) => Ok((qualified(n), id)),
            None => Err((ResolveFailure::UnknownPacket, qualified(n))),
        },
    }
}

/// Finds the namespaced report name and id of one packet type.
pub fn resolve_packet_id(explicit: Option<String>, ident: &str, report: &Vec<(String, Sides)>) -> (r: Result<(String, u8), ResolveError>)
    ensures
        match packet_id_of(
            match explicit {
                Some(n) => Some(n@),
                None => None,
            },
            ident@,
            report@,
        ) {
            Ok((name, id)) => r matches Ok((n, i)) && n@ == name && i == id,
            Err((kind, name)) => r matches Err(e) && e.kind == kind && e.name@ == name,
        },
{
    let name = match explicit {
        Some(n) => n,
        None => match camel_case_to_snake_case(ident) {
            Some(s) => s,
            None => {
                return Err(ResolveError { kind: ResolveFailure::InvalidName, name: ident.to_owned() });
            },
        },
    };
    let packet_name = qualify(name.as_str());
    match find_protocol_id_any(report, packet_name.as_str()) {
        Some(id) => Ok((packet_name, id)),
        None => Err(ResolveError { kind: ResolveFailure::UnknownPacket, name: packet_name }),
    }
}

} // verus!

verus! {

/// The type names of the packets of `list` with the given direction and
/// layer, in order.
pub open spec fn idents_where(list: Seq<PacketWithMetadata>, direction: Direction, networking: bool) -> Seq<Seq<char>>
    decreases list.len(),
{
    if list.len() == 0 {
        Seq::empty()
    } else {
        let rest = idents_where(list.drop_last(), direction, networking);
        let m = list.last();
        if m.direction == direction && m.is_networking_layer == networking {
            rest.push(m.ident@)
        } else {
            rest
        }
    }
}

/// The packets of a protocol, split by direction and by the layer that
/// handles them.
#[derive(Debug)]
pub struct PacketLayout {
    pub networking_clientbound: Vec<String>,
    pub engine_clientbound: Vec<String>,
    pub networking_serverbound: Vec<String>,
    pub engine_serverbound: Vec<String>,
}

pub open spec fn names(v: Vec<String>) -> Seq<Seq<char>> {
    v@.map_values(|s: String| s@)
}

/// Splits resolved packets by direction and layer, keeping their order.
pub fn layout_packets(list: &Vec<PacketWithMetadata>) -> (r: PacketLayout)
    ensures
        names(r.networking_clientbound) == idents_where(list@, Direction::Clientbound, true),
        names(r.engine_clientbound) == idents_where(list@, Direction::Clientbound, false),
        names(r.networking_serverbound) == idents_where(list@, Direction::Serverbound, true),
        names(r.engine_serverbound) == idents_where(list@, Direction::Serverbound, false),
{
    let mut layout = PacketLayout {
        networking_clientbound: Vec::new(),
        engine_clientbound: Vec::new(),
        networking_serverbound: Vec::new(),
        engine_serverbound: Vec::new(),
    };
    let mut i: usize = 0;
    while i < list.len()
        invariant
            i <= list@.len(),
            names(layout.networking_clientbound) == idents_where(list@.take(i as int), Direction::Clientbound, true),
            names(layout.engine_clientbound) == idents_where(list@.take(i as int), Direction::Clientbound, false),
            names(layout.networking_serverbound) == idents_where(list@.take(i as int), Direction::Serverbound, true),
            names(layout.engine_serverbound) == idents_where(list@.take(i as int), Direction::Serverbound, false),
        decreases list.len() - i,
    {
        let m = &list[i];
        assert(list@.take(i + 1).drop_last() =~= list@.take(i as int));
        assert(list@.take(i + 1).last() == list@[i as int]);
        let ident = m.ident.clone();
        match (m.direction, m.is_networking_layer) {
            (Direction::Clientbound, true) => {
                layout.networking_clientbound.push(ident);
                assert(names(layout.networking_clientbound) =~= idents_where(list@.take(i as int), Direction::Clientbound, true).push(m.ident@));
            },
            (Direction::Clientbound, false) => {
                layout.engine_clientbound.push(ident);
                assert(names(layout.engine_clientbound) =~= idents_where(list@.take(i as int), Direction::Clientbound, false).push(m.ident@));
            },
            (Direction::Serverbound, true) => {
                layout.networking_serverbound.push(ident);
                assert(names(layout.networking_serverbound) =~= idents_where(list@.take(i as int), Direction::Serverbound, true).push(m.ident@));
            },
            (Direction::Serverbound, false) => {
                layout.engine_serverbound.push(ident);
                assert(names(layout.engine_serverbound) =~= idents_where(list@.take(i as int), Direction::Serverbound, false).push(m.ident@));
            },
        }
        i = i + 1;
    }
    assert(list@.take(i as int) =~= list@);
    layout
}

} // verus!
