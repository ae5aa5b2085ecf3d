//! Zone chat: who hears a message on each channel, the `/who` listing and
//! the consider reply. Distances are measured by the caller, which passes
//! whether each listener is within speaking range of the sender.
use vstd::prelude::*;

use vstd::string::StringExecFns;
use vstd::string::StringSliceAdditionalSpecFns;
use vstd::utf8::encode_utf8;

verus! {

/// What kind of entity something in the zone is.
#[derive(Debug, Clone, Copy, PartialEq, Eq, Structural)]
pub enum EntityKind {
    Player,
    Npc,
    PlayerCorpse,
    NpcCorpse,
}

/// Who an entity is.
#[derive(Debug, Clone)]
pub struct Identity {
    pub entity_id: u32,
    pub kind: EntityKind,
    pub name: String,
    pub last_name: String,
    pub race: u32,
    pub class_id: u32,
    pub level: u32,
    pub gender: u32,
    pub deity: u32,
}

/// An entity's hit points, mana and endurance.
#[derive(Debug, Clone, Copy)]
pub struct Health {
    pub current_hp: i32,
    pub max_hp: i32,
    pub current_mana: i32,
    pub max_mana: i32,
    pub current_endurance: i32,
    pub max_endurance: i32,
}

/// The channels chat is routed by; every other channel is `Other`.
#[derive(Debug, Clone, Copy, PartialEq, Eq, Structural)]
pub enum ChatChannel {
    Say,
    Shout,
    Ooc,
    Auction,
    Tell,
    Other,
}

/// An entity that may hear a message: who it is, and whether it stands
/// within speaking range of the sender (false when it has no position).
#[derive(Debug, Clone)]
pub struct ChatListener {
    pub entity_id: u32,
    pub kind: EntityKind,
    pub name: String,
    pub within_say_range: bool,
}

/// What is sent: the chat message itself, or the error that the addressee
/// of a tell is not in the zone.
#[derive(Debug, Clone, Copy, PartialEq, Eq, Structural)]
pub enum ChatReply {
    Relay,
    PlayerNotFound,
}

/// One send: to an entity, or to everyone in the zone (`None`).
#[derive(Debug, Clone, Copy, PartialEq, Eq, Structural)]
pub struct ChatDelivery {
    pub target: Option<u32>,
    pub reply: ChatReply,
}

/// A byte with ASCII upper-case letters folded to lower case.
pub open spec fn ascii_lower(b: u8) -> u8 {
    if 65 <= b <= 90 {
        (b + 32) as u8
    } else {
        b
    }
}

/// Whether two byte strings are equal ignoring ASCII case.
pub open spec fn same_ignoring_ascii_case(a: Seq<u8>, b: Seq<u8>) -> bool {
    a.len() == b.len() && forall|i: int| 0 <= i < a.len() ==> #[trigger] ascii_lower(a[i]) == ascii_lower(b[i])
}

fn lower(b: u8) -> (r: u8)
    ensures
        r == ascii_lower(b),
{
    if 65 <= b && b <= 90 {
        b + 32
    } else {
        b
    }
}

/// Whether two names are equal ignoring ASCII case.
pub fn names_match(a: &str, b: &str) -> (m: bool)
    ensures
        m == same_ignoring_ascii_case(a.spec_bytes(), b.spec_bytes()),
{
    let x = a.as_bytes();
    let y = b.as_bytes();
    if x.len() != y.len() {
        return false;
    }
    let mut i: usize = 0;
    while i < x.len()
        invariant
            x@ == a.spec_bytes(),
            y@ == b.spec_bytes(),
            x@.len() == y@.len(),
            i <= x@.len(),
            forall|j: int| 0 <= j < i ==> #[trigger] ascii_lower(x@[j]) == ascii_lower(y@[j]),
        decreases x@.len() - i,
    {
        if lower(x[i]) != lower(y[i]) {
            return false;
        }
        i = i + 1;
    }
    true
}

/// The bytes of a listener's name.
pub open spec fn name_bytes(l: ChatListener) -> Seq<u8> {
    encode_utf8(l.name@)
}

/// The players other than the sender within speaking range, in order.
pub open spec fn say_deliveries(ls: Seq<ChatListener>, sender: u32) -> Seq<ChatDelivery>
    decreases ls.len(),
{
    if ls.len() == 0 {
        Seq::empty()
    } else {
        let rest = say_deliveries(ls.drop_last(), sender);
        let l = ls.last();
        if l.entity_id != sender && l.kind == EntityKind::Player && l.within_say_range {
            rest.push(ChatDelivery { target: Some(l.entity_id), reply: ChatReply::Relay })
        } else {
            rest
        }
    }
}

/// The first player whose name is `name`, ignoring ASCII case.
pub open spec fn tell_target(ls: Seq<ChatListener>, name: Seq<u8>) -> Option<u32>
    decreases ls.len(),
{
    if ls.len() == 0 {
        None
    } else if ls[0].kind == EntityKind::Player && same_ignoring_ascii_case(name_bytes(ls[0]), name) {
        Some(ls[0].entity_id)
    } else {
        tell_target(ls.drop_first(), name)
    }
}

/// The sends for a chat message: a say reaches the players in range (when
/// the sender's position is known) and comes back to the sender; shouts,
/// out-of-character and auction messages go to the whole zone; a tell goes
/// to the named player and back to the sender, or the sender learns that
/// no such player is here; anything else only comes back to the sender.
pub open spec fn chat_routes(
    channel: ChatChannel,
    sender: u32,
    sender_located: bool,
    target_name: Seq<u8>,
    ls: Seq<ChatListener>,
) -> Seq<ChatDelivery> {
    let echo = ChatDelivery { target: Some(sender), reply: ChatReply::Relay };
    match channel {
        ChatChannel::Say => if sender_located {
            say_deliveries(ls, sender).push(echo)
        } else {
            seq![echo]
        },
        ChatChannel::Shout | ChatChannel::Ooc | ChatChannel::Auction => seq![
            ChatDelivery { target: None, reply: ChatReply::Relay },
        ],
        ChatChannel::Tell => match tell_target(ls, target_name) {
            Some(t) => seq![ChatDelivery { target: Some(t), reply: ChatReply::Relay }, echo],
            None => seq![ChatDelivery { target: Some(sender), reply: ChatReply::PlayerNotFound }],
        },
        ChatChannel::Other => seq![echo],
    }
}

fn find_tell_target(ls: &[ChatListener], target_name: &str) -> (t: Option<u32>)
    ensures
        t == tell_target(ls@, target_name.spec_bytes()),
{
    let mut i: usize = 0;
    proof {
        assert(ls@.skip(0) =~= ls@);
    }
    while i < ls.len()
        invariant
            i <= ls@.len(),
            tell_target(ls@, target_name.spec_bytes()) == tell_target(ls@.skip(i as int), target_name.spec_bytes()),
        decreases ls@.len() - i,
    {
        proof {
            assert(ls@.skip(i as int)[0] == ls@[i as int]);
            assert(ls@.skip(i as int).drop_first() =~= ls@.skip(i + 1));
        }
        let l = &ls[i];
        if l.kind == EntityKind::Player {
            let n = l.name.as_str();
            if names_match(n, target_name) {
                return Some(l.entity_id);
            }
        }
        i = i + 1;
    }
    None
}

/// Routes a chat message from `sender_entity_id`: the sends, in order.
/// `listeners` are the zone's entities, in the order they are visited.
pub fn handle_chat_message(
    channel: ChatChannel,
    sender_entity_id: u32,
    sender_located: bool,
    target_name: &str,
    listeners: &[ChatListener],
) -> (out: Vec<ChatDelivery>)
    ensures
        out@ == chat_routes(channel, sender_entity_id, sender_located, target_name.spec_bytes(), listeners@),
{
    let echo = ChatDelivery { target: Some(sender_entity_id), reply: ChatReply::Relay };
    let mut out: Vec<ChatDelivery> = Vec::new();
    match channel {
        ChatChannel::Say => {
            if sender_located {
                let mut i: usize = 0;
                while i < listeners.len()
                    invariant
                        i <= listeners@.len(),
                        out@ == say_deliveries(listeners@.take(i as int), sender_entity_id),
                    decreases listeners@.len() - i,
                {
                    proof {
                        assert(listeners@.take(i + 1).drop_last() =~= listeners@.take(i as int));
                    }
                    let l = &listeners[i];
                    if l.entity_id != sender_entity_id && l.kind == EntityKind::Player && l.within_say_range {
                        out.push(ChatDelivery { target: Some(l.entity_id), reply: ChatReply::Relay });
                    }
                    i = i + 1;
                }
                proof {
                    assert(listeners@.take(i as int) =~= listeners@);
                }
            }
            out.push(echo);
        },
        ChatChannel::Shout | ChatChannel::Ooc | ChatChannel::Auction => {
            out.push(ChatDelivery { target: None, reply: ChatReply::Relay });
        },
        ChatChannel::Tell => {
            match find_tell_target(listeners, target_name) {
                Some(t) => {
                    out.push(ChatDelivery { target: Some(t), reply: ChatReply::Relay });
                    out.push(echo);
                },
                None => {
                    out.push(ChatDelivery { target: Some(sender_entity_id), reply: ChatReply::PlayerNotFound });
                },
            }
        },
        ChatChannel::Other => {
            out.push(echo);
        },
    }
    proof {
        assert(out@ =~= chat_routes(channel, sender_entity_id, sender_located, target_name.spec_bytes(), listeners@));
    }
    out
}

/// The text of the system message that answers a tell whose addressee is
/// not in the zone.
pub open spec fn player_not_found_spec(target_name: Seq<char>) -> Seq<char> {
    "Player '"@ + target_name + "' not found."@
}

/// Builds the system message text for a `PlayerNotFound` reply:
/// `Player '<name>' not found.`
pub fn player_not_found_text(target_name: &str) -> (text: String)
    ensures
        text@ == player_not_found_spec(target_name@),
{
    let mut text = String::from_str("Player '");
    text.append(target_name);
    text.append("' not found.");
    proof {
        reveal_strlit("Player '");
        reveal_strlit("' not found.");
    }
    text
}

/// Law: the sends of a say made from a known position are the relays to
/// players other than the sender who stand within range, then the echo
/// to the sender; no NPC or corpse hears it, and every such player does,
/// in the order the listeners are visited.
pub proof fn law_say_reaches_players_in_range(sender: u32, target_name: Seq<u8>, ls: Seq<ChatListener>)
    ensures
        ({
            let out = chat_routes(ChatChannel::Say, sender, true, target_name, ls);
            &&& out.len() >= 1
            &&& out.last() == (ChatDelivery { target: Some(sender), reply: ChatReply::Relay })
            &&& forall|j: int|
                #![trigger out[j]]
                0 <= j < out.len() - 1 ==> exists|k: int|
                    0 <= k < ls.len() && {
                        let l = #[trigger] ls[k];
                        &&& out[j] == (ChatDelivery { target: Some(l.entity_id), reply: ChatReply::Relay })
                        &&& l.kind == EntityKind::Player
                        &&& l.within_say_range
                        &&& l.entity_id != sender
                    }
            &&& out.drop_last() == ls.filter(|l: ChatListener| l.entity_id != sender && l.kind == EntityKind::Player
                && l.within_say_range).map_values(
                |l: ChatListener| ChatDelivery { target: Some(l.entity_id), reply: ChatReply::Relay },
            )
        }),
{
    lemma_say_deliveries(ls, sender);
    lemma_say_deliveries_complete(ls, sender);
    let out = chat_routes(ChatChannel::Say, sender, true, target_name, ls);
    assert(out.drop_last() =~= say_deliveries(ls, sender));
}

proof fn lemma_say_deliveries_complete(ls: Seq<ChatListener>, sender: u32)
    ensures
        say_deliveries(ls, sender) == ls.filter(|l: ChatListener| l.entity_id != sender && l.kind
            == EntityKind::Player && l.within_say_range).map_values(
            |l: ChatListener| ChatDelivery { target: Some(l.entity_id), reply: ChatReply::Relay },
        ),
    decreases ls.len(),
{
    let p = |l: ChatListener| l.entity_id != sender && l.kind == EntityKind::Player && l.within_say_range;
    let f = |l: ChatListener| ChatDelivery { target: Some(l.entity_id), reply: ChatReply::Relay };
    reveal_with_fuel(Seq::filter, 1);
    if ls.len() == 0 {
        assert(ls.filter(p).map_values(f) =~= Seq::<ChatDelivery>::empty());
    } else {
        let d = ls.drop_last();
        lemma_say_deliveries_complete(d, sender);
        if p(ls.last()) {
            assert(ls.filter(p) == d.filter(p).push(ls.last()));
            assert(ls.filter(p).map_values(f) =~= d.filter(p).map_values(f).push(f(ls.last())));
        } else {
            assert(ls.filter(p) == d.filter(p));
        }
    }
}

proof fn lemma_say_deliveries(ls: Seq<ChatListener>, sender: u32)
    ensures
        forall|j: int|
            #![trigger say_deliveries(ls, sender)[j]]
            0 <= j < say_deliveries(ls, sender).len() ==> exists|k: int|
                0 <= k < ls.len() && {
                    let l = #[trigger] ls[k];
                    &&& say_deliveries(ls, sender)[j] == (ChatDelivery {
                        target: Some(l.entity_id),
                        reply: ChatReply::Relay,
                    })
                    &&& l.kind == EntityKind::Player
                    &&& l.within_say_range
                    &&& l.entity_id != sender
                },
    decreases ls.len(),
{
    if ls.len() > 0 {
        let d = ls.drop_last();
        lemma_say_deliveries(d, sender);
        let r = say_deliveries(d, sender);
        let o = say_deliveries(ls, sender);
        assert forall|j: int| #![trigger o[j]] 0 <= j < o.len() implies exists|k: int|
            0 <= k < ls.len() && {
                let l = #[trigger] ls[k];
                &&& o[j] == (ChatDelivery { target: Some(l.entity_id), reply: ChatReply::Relay })
                &&& l.kind == EntityKind::Player
                &&& l.within_say_range
                &&& l.entity_id != sender
            } by {
            if j < r.len() {
                assert(o[j] == r[j]);
                let k = choose|k: int|
                    0 <= k < d.len() && {
                        let l = #[trigger] d[k];
                        &&& r[j] == (ChatDelivery { target: Some(l.entity_id), reply: ChatReply::Relay })
                        &&& l.kind == EntityKind::Player
                        &&& l.within_say_range
                        &&& l.entity_id != sender
                    };
                assert(d[k] == ls[k]);
            } else {
                assert(ls[ls.len() - 1] == ls.last());
            }
        }
    }
}

/// Law: a shout, out-of-character or auction message is one relay to the
/// whole zone; a say whose sender has no position, and a message on any
/// other channel, only come back to the sender.
pub proof fn law_zone_wide_and_echo_channels(
    channel: ChatChannel,
    sender: u32,
    located: bool,
    name: Seq<u8>,
    ls: Seq<ChatListener>,
)
    ensures
        channel == ChatChannel::Shout || channel == ChatChannel::Ooc || channel == ChatChannel::Auction
            ==> chat_routes(channel, sender, located, name, ls) == seq![
            ChatDelivery { target: None, reply: ChatReply::Relay },
        ],
        channel == ChatChannel::Other || (channel == ChatChannel::Say && !located) ==> chat_routes(
            channel,
            sender,
            located,
            name,
            ls,
        ) == seq![ChatDelivery { target: Some(sender), reply: ChatReply::Relay }],
{
}

/// Whether listener `l` is a player named `name`, ignoring ASCII case.
pub open spec fn is_named_player(l: ChatListener, name: Seq<u8>) -> bool {
    l.kind == EntityKind::Player && same_ignoring_ascii_case(name_bytes(l), name)
}

proof fn lemma_tell_target(ls: Seq<ChatListener>, name: Seq<u8>)
    ensures
        tell_target(ls, name) is None <==> forall|k: int| 0 <= k < ls.len() ==> !is_named_player(#[trigger] ls[k], name),
        tell_target(ls, name) is Some ==> exists|k: int|
            0 <= k < ls.len() && is_named_player(#[trigger] ls[k], name) && ls[k].entity_id == tell_target(ls, name)->0
                && forall|j: int| 0 <= j < k ==> !is_named_player(#[trigger] ls[j], name),
    decreases ls.len(),
{
    if ls.len() > 0 {
        let r = ls.drop_first();
        lemma_tell_target(r, name);
        assert forall|k: int| 0 <= k < r.len() implies r[k] == ls[k + 1] by {}
        if is_named_player(ls[0], name) {
            assert(forall|j: int| 0 <= j < 0 ==> !is_named_player(#[trigger] ls[j], name));
        } else {
            if tell_target(r, name) is Some {
                let k = choose|k: int|
                    0 <= k < r.len() && is_named_player(#[trigger] r[k], name) && r[k].entity_id == tell_target(
                        r,
                        name,
                    )->0 && forall|j: int| 0 <= j < k ==> !is_named_player(#[trigger] r[j], name);
                assert(ls[k + 1] == r[k]);
                assert forall|j: int| 0 <= j < k + 1 implies !is_named_player(#[trigger] ls[j], name) by {
                    if j > 0 {
                        assert(ls[j] == r[j - 1]);
                    }
                }
            } else {
                assert forall|k: int| 0 <= k < ls.len() implies !is_named_player(#[trigger] ls[k], name) by {
                    if k > 0 {
                        assert(ls[k] == r[k - 1]);
                    }
                }
            }
            if forall|k: int| 0 <= k < ls.len() ==> !is_named_player(#[trigger] ls[k], name) {
                assert forall|k: int| 0 <= k < r.len() implies !is_named_player(#[trigger] r[k], name) by {
                    assert(r[k] == ls[k + 1]);
                }
            }
        }
    }
}

/// Law: a tell goes to the first listener that is a player with the
/// addressee's name (ignoring ASCII case), then comes back to the sender;
/// when no listener is such a player, the sender alone hears that the
/// player was not found.
pub proof fn law_tell_reaches_named_player(sender: u32, located: bool, name: Seq<u8>, ls: Seq<ChatListener>)
    ensures
        ({
            let out = chat_routes(ChatChannel::Tell, sender, located, name, ls);
            let echo = ChatDelivery { target: Some(sender), reply: ChatReply::Relay };
            &&& (forall|k: int| 0 <= k < ls.len() ==> !is_named_player(#[trigger] ls[k], name)) ==> out == seq![
                ChatDelivery { target: Some(sender), reply: ChatReply::PlayerNotFound },
            ]
            &&& forall|k: int|
                0 <= k < ls.len() && is_named_player(#[trigger] ls[k], name) && (forall|j: int|
                    0 <= j < k ==> !is_named_player(#[trigger] ls[j], name)) ==> out == seq![
                    ChatDelivery { target: Some(ls[k].entity_id), reply: ChatReply::Relay },
                    echo,
                ]
        }),
{
    lemma_tell_target(ls, name);
    if tell_target(ls, name) is Some {
        let k0 = choose|k: int|
            0 <= k < ls.len() && is_named_player(#[trigger] ls[k], name) && ls[k].entity_id == tell_target(ls, name)->0
                && forall|j: int| 0 <= j < k ==> !is_named_player(#[trigger] ls[j], name);
        assert forall|k: int|
            0 <= k < ls.len() && is_named_player(#[trigger] ls[k], name) && (forall|j: int|
                0 <= j < k ==> !is_named_player(#[trigger] ls[j], name)) implies k == k0 by {
            if k < k0 {
                assert(!is_named_player(ls[k], name));
            } else if k > k0 {
                assert(!is_named_player(ls[k0], name));
            }
        }
    }
}

/// One line of the `/who` listing.
#[derive(Debug, Clone)]
pub struct WhoEntry {
    pub name: String,
    pub level: u32,
    pub race: u32,
    pub class_id: u32,
    pub guild_name: String,
    pub zone_id: u32,
    pub anonymous: bool,
    pub lfg: bool,
}

/// The `/who` listing and how many players it counts.
#[derive(Debug, Clone)]
pub struct WhoListing {
    pub entries: Vec<WhoEntry>,
    pub total_online: u32,
}

/// A listing line as name, level, race and class.
pub open spec fn who_line(e: WhoEntry) -> (Seq<char>, u32, u32, u32) {
    (e.name@, e.level, e.race, e.class_id)
}

/// The players among `ids`, in order, as name, level, race and class.
pub open spec fn player_lines(ids: Seq<Identity>) -> Seq<(Seq<char>, u32, u32, u32)>
    decreases ids.len(),
{
    if ids.len() == 0 {
        Seq::empty()
    } else {
        let rest = player_lines(ids.drop_last());
        let id = ids.last();
        if id.kind == EntityKind::Player {
            rest.push((id.name@, id.level, id.race, id.class_id))
        } else {
            rest
        }
    }
}

/// The `/who` listing of the zone: every player, in the order given, with
/// no guild, zone, anonymity or looking-for-group flag; the total is the
/// number of players listed.
pub fn build_who_response(ids: &[Identity]) -> (w: WhoListing)
    ensures
        w.entries@.map_values(|e: WhoEntry| who_line(e)) == player_lines(ids@),
        forall|j: int|
            0 <= j < w.entries@.len() ==> {
                let e = #[trigger] w.entries@[j];
                &&& e.guild_name@ == Seq::<char>::empty()
                &&& e.zone_id == 0
                &&& !e.anonymous
                &&& !e.lfg
            },
        w.total_online == w.entries@.len() as u32,
{
    let mut entries: Vec<WhoEntry> = Vec::new();
    let mut i: usize = 0;
    while i < ids.len()
        invariant
            i <= ids@.len(),
            entries@.map_values(|e: WhoEntry| who_line(e)) == player_lines(ids@.take(i as int)),
            forall|j: int|
                0 <= j < entries@.len() ==> {
                    let e = #[trigger] entries@[j];
                    &&& e.guild_name@ == Seq::<char>::empty()
                    &&& e.zone_id == 0
                    &&& !e.anonymous
                    &&& !e.lfg
                },
        decreases ids@.len() - i,
    {
        proof {
            assert(ids@.take(i + 1).drop_last() =~= ids@.take(i as int));
        }
        let id = &ids[i];
        if id.kind == EntityKind::Player {
            let ghost before = entries@;
            let e = WhoEntry {
                name: id.name.clone(),
                level: id.level,
                race: id.race,
                class_id: id.class_id,
                guild_name: String::new(),
                zone_id: 0,
                anonymous: false,
                lfg: false,
            };
            entries.push(e);
            proof {
                assert(entries@.map_values(|e: WhoEntry| who_line(e)) =~= before.map_values(
                    |e: WhoEntry| who_line(e),
                ).push(who_line(e)));
            }
        }
        i = i + 1;
    }
    proof {
        assert(ids@.take(i as int) =~= ids@);
    }
    let total = entries.len() as u32;
    WhoListing { entries, total_online: total }
}

/// What a consider shows of a target.
#[derive(Debug, Clone, Copy, PartialEq, Eq)]
pub struct ConsiderInfo {
    pub entity_id: u32,
    pub target_id: u32,
    pub faction: i32,
    pub level: u32,
    pub current_hp: i32,
    pub max_hp: i32,
    pub pvp: bool,
}

/// The consider reply for `entity_id` looking at `target`: its id, level
/// and hit points, neutral faction, no PvP.
pub fn build_consider(entity_id: u32, target: &Identity, target_health: &Health) -> (c: ConsiderInfo)
    ensures
        c == (ConsiderInfo {
            entity_id,
            target_id: target.entity_id,
            faction: 0,
            level: target.level,
            current_hp: target_health.current_hp,
            max_hp: target_health.max_hp,
            pvp: false,
        }),
{
    ConsiderInfo {
        entity_id,
        target_id: target.entity_id,
        faction: 0,
        level: target.level,
        current_hp: target_health.current_hp,
        max_hp: target_health.max_hp,
        pvp: false,
    }
}

} // verus!
