//! The text record by which the Titanium client receives an inventory item:
//! instance fields, then the quoted item fields, all separated by '|'.
use vstd::prelude::*;
use vstd::utf8::encode_utf8;

use crate::bytes::{push_all, push_repeated, repeated};
use crate::text::{
    decimal, decimal_i32, decimal_u32, parse_i32, parse_i32_spec, push_i16, push_i32, push_text,
    push_u32, text_bytes,
};
use crate::titanium::{
    bits_21_22_swapped, catch22, server_to_titanium_slot, swap_bits_21_and_22, titanium_slot,
};

verus! {

/// The field separator.
pub const PIPE: u8 = 124;

/// The quote around the item fields.
pub const QUOTE: u8 = 34;

/// An inventory row: the slot, the charges and the item's columns.
pub struct InventoryItemRow {
    pub slot_id: i32,
    pub item_id: i32,
    pub charges: i16,
    pub itemclass: i32,
    pub name: String,
    pub lore: String,
    pub idfile: String,
    pub item_db_id: i32,
    pub weight: i32,
    pub norent: i32,
    pub nodrop: i32,
    pub size: i32,
    pub slots: i32,
    pub price: i32,
    pub icon: i32,
    pub benefitflag: i32,
    pub tradeskills: i32,
    pub cr: i32,
    pub dr: i32,
    pub pr: i32,
    pub mr: i32,
    pub fr: i32,
    pub astr: i32,
    pub asta: i32,
    pub aagi: i32,
    pub adex: i32,
    pub acha: i32,
    pub aint: i32,
    pub awis: i32,
    pub hp: i32,
    pub mana: i32,
    pub ac: i32,
    pub deity: i32,
    pub skillmodvalue: i32,
    pub skillmodmax: i32,
    pub skillmodtype: i32,
    pub banedmgrace: i32,
    pub banedmgamt: i32,
    pub banedmgbody: i32,
    pub magic: i32,
    pub casttime_: i32,
    pub reqlevel: i32,
    pub bardtype: i32,
    pub bardvalue: i32,
    pub light: i32,
    pub delay: i32,
    pub reclevel: i32,
    pub recskill: i32,
    pub elemdmgtype: i32,
    pub elemdmgamt: i32,
    pub range: i32,
    pub damage: i32,
    pub color: i64,
    pub classes: i32,
    pub races: i32,
    pub maxcharges: i32,
    pub itemtype: i32,
    pub material: i32,
    /// The sell rate as the client reads it: decimal text with six
    /// digits after the point.
    pub sellrate_text: String,
    pub procrate: i32,
    pub combateffects: String,
    pub shielding: i32,
    pub stunresist: i32,
    pub strikethrough: i32,
    pub extradmgskill: i32,
    pub extradmgamt: i32,
    pub spellshield: i32,
    pub avoidance: i32,
    pub accuracy: i32,
    pub charmfileid: String,
    pub factionmod1: i32,
    pub factionmod2: i32,
    pub factionmod3: i32,
    pub factionmod4: i32,
    pub factionamt1: i32,
    pub factionamt2: i32,
    pub factionamt3: i32,
    pub factionamt4: i32,
    pub charmfile: String,
    pub augtype: i32,
    pub augslot1type: i16,
    pub augslot1visible: i16,
    pub augslot2type: i16,
    pub augslot2visible: i16,
    pub augslot3type: i16,
    pub augslot3visible: i16,
    pub augslot4type: i16,
    pub augslot4visible: i16,
    pub augslot5type: i16,
    pub augslot5visible: i16,
    pub ldontheme: i32,
    pub ldonprice: i32,
    pub ldonsold: i32,
    pub bagtype: i32,
    pub bagslots: i32,
    pub bagsize: i32,
    pub bagwr: i32,
    pub book: i32,
    pub booktype: i32,
    pub filename: String,
    pub banedmgraceamt: i32,
    pub augrestrict: i32,
    pub loregroup: i32,
    pub pendingloreflag: i16,
    pub artifactflag: i16,
    pub summonedflag: i16,
    pub favor: i32,
    pub fvnodrop: i32,
    pub endur: i32,
    pub dotshielding: i32,
    pub attack: i32,
    pub regen: i32,
    pub manaregen: i32,
    pub enduranceregen: i32,
    pub haste: i32,
    pub damageshield: i32,
    pub recastdelay: i32,
    pub recasttype: i32,
    pub guildfavor: i32,
    pub augdistiller: i32,
    pub attuneable: i32,
    pub nopet: i32,
    pub pointtype: i32,
    pub potionbelt: i32,
    pub potionbeltslots: i32,
    pub stacksize: i32,
    pub notransfer: i32,
    pub stackable: i32,
    pub clickeffect: i32,
    pub clicktype: i32,
    pub clicklevel2: i32,
    pub clicklevel: i32,
    pub proceffect: i32,
    pub proctype: i32,
    pub proclevel2: i32,
    pub proclevel: i32,
    pub worneffect: i32,
    pub worntype: i32,
    pub wornlevel2: i32,
    pub wornlevel: i32,
    pub focuseffect: i32,
    pub focustype: i32,
    pub focuslevel2: i32,
    pub focuslevel: i32,
    pub scrolleffect: i32,
    pub scrolltype: i32,
    pub scrolllevel2: i32,
    pub scrolllevel: i32,
}

/// The separator, as text.
pub open spec fn pipe() -> Seq<u8> {
    seq![PIPE]
}

/// The quote, as text.
pub open spec fn quote() -> Seq<u8> {
    seq![QUOTE]
}

/// The value of a numeric text column: its parse as an `i32`, or 0 when it
/// is not one.
pub open spec fn column_value(s: Seq<char>) -> i32 {
    match parse_i32_spec(s) {
        Some(v) => v,
        None => 0,
    }
}

fn push_pipe(buf: &mut Vec<u8>)
    ensures
        final(buf)@ == old(buf)@ + pipe(),
{
    buf.push(PIPE);
    assert(buf@ =~= old(buf)@ + pipe());
}

fn push_quote(buf: &mut Vec<u8>)
    ensures
        final(buf)@ == old(buf)@ + quote(),
{
    buf.push(QUOTE);
    assert(buf@ =~= old(buf)@ + quote());
}

fn column_value_of(s: &str) -> (v: i32)
    ensures
        v == column_value(s@),
{
    match parse_i32(s) {
        Some(v) => v,
        None => 0,
    }
}

/// The instance fields: stack size, slot, price, serial and charges.
#[verifier::opaque]
pub open spec fn instance_fields(row: InventoryItemRow, serial: i32) -> Seq<u8> {
    let slot: int = titanium_slot(row.slot_id);
    let stack_count: i32 = if row.stackable != 0 { row.charges as i32 } else { 0 };
    let wire_charges: i32 = if row.stackable != 0 { if row.itemtype == 21 { 1 } else { 0 } } else { row.charges as i32 };
    decimal(stack_count as int)
        + pipe() + decimal(0)
        + pipe() + decimal(slot as int)
        + pipe() + decimal(row.price as int)
        + pipe() + decimal(1)
        + pipe() + decimal(0)
        + pipe() + decimal(serial as int)
        + pipe() + decimal(0)
        + pipe() + decimal(wire_charges as int)
        + pipe() + decimal(0)
        + pipe() + decimal(0)
}

fn instance_fields_bytes(row: &InventoryItemRow, serial: i32) -> (g: Vec<u8>)
    ensures
        g@ == instance_fields(*row, serial),
{
    reveal(instance_fields);
    let slot: i32 = server_to_titanium_slot(row.slot_id);
    let stack_count: i32 = if row.stackable != 0 { row.charges as i32 } else { 0 };
    let wire_charges: i32 = if row.stackable != 0 { if row.itemtype == 21 { 1 } else { 0 } } else { row.charges as i32 };
    let mut g = decimal_i32(stack_count);
    push_pipe(&mut g);
    push_i32(&mut g, 0);
    push_pipe(&mut g);
    push_i32(&mut g, slot);
    push_pipe(&mut g);
    push_i32(&mut g, row.price);
    push_pipe(&mut g);
    push_i32(&mut g, 1);
    push_pipe(&mut g);
    push_i32(&mut g, 0);
    push_pipe(&mut g);
    push_i32(&mut g, serial);
    push_pipe(&mut g);
    push_i32(&mut g, 0);
    push_pipe(&mut g);
    push_i32(&mut g, wire_charges);
    push_pipe(&mut g);
    push_i32(&mut g, 0);
    push_pipe(&mut g);
    push_i32(&mut g, 0);
    g
}

/// The item class, texts, weight, flags, size, slot mask, price and icon.
#[verifier::opaque]
pub open spec fn identity_fields(row: InventoryItemRow) -> Seq<u8> {
    let weight: i32 = if row.weight < 255 { row.weight } else { 255 };
    let slots_xformed: u32 = bits_21_22_swapped(row.slots as u32) & !(1u32 << 22u32);
    decimal(row.itemclass as int)
        + pipe() + encode_utf8(row.name@)
        + pipe() + encode_utf8(row.lore@)
        + pipe() + encode_utf8(row.idfile@)
        + pipe() + decimal(row.item_db_id as int)
        + pipe() + decimal(weight as int)
        + pipe() + decimal(row.norent as int)
        + pipe() + decimal(row.nodrop as int)
        + pipe() + decimal(row.size as int)
        + pipe() + decimal(slots_xformed as int)
        + pipe() + decimal(row.price as int)
        + pipe() + decimal(row.icon as int)
        + pipe() + decimal(0)
        + pipe() + decimal(0)
        + pipe() + decimal(row.benefitflag as int)
        + pipe() + decimal(row.tradeskills as int)
}

fn identity_fields_bytes(row: &InventoryItemRow) -> (g: Vec<u8>)
    ensures
        g@ == identity_fields(*row),
{
    reveal(identity_fields);
    let weight: i32 = if row.weight < 255 { row.weight } else { 255 };
    let slots_xformed: u32 = catch22(swap_bits_21_and_22(row.slots as u32));
    let mut g = decimal_i32(row.itemclass);
    push_pipe(&mut g);
    push_text(&mut g, row.name.as_str());
    push_pipe(&mut g);
    push_text(&mut g, row.lore.as_str());
    push_pipe(&mut g);
    push_text(&mut g, row.idfile.as_str());
    push_pipe(&mut g);
    push_i32(&mut g, row.item_db_id);
    push_pipe(&mut g);
    push_i32(&mut g, weight);
    push_pipe(&mut g);
    push_i32(&mut g, row.norent);
    push_pipe(&mut g);
    push_i32(&mut g, row.nodrop);
    push_pipe(&mut g);
    push_i32(&mut g, row.size);
    push_pipe(&mut g);
    push_u32(&mut g, slots_xformed);
    push_pipe(&mut g);
    push_i32(&mut g, row.price);
    push_pipe(&mut g);
    push_i32(&mut g, row.icon);
    push_pipe(&mut g);
    push_i32(&mut g, 0);
    push_pipe(&mut g);
    push_i32(&mut g, 0);
    push_pipe(&mut g);
    push_i32(&mut g, row.benefitflag);
    push_pipe(&mut g);
    push_i32(&mut g, row.tradeskills);
    g
}

/// The resists, attribute bonuses, hit points, mana, armour class and deity.
#[verifier::opaque]
pub open spec fn stat_fields(row: InventoryItemRow) -> Seq<u8> {
    decimal(row.cr as int)
        + pipe() + decimal(row.dr as int)
        + pipe() + decimal(row.pr as int)
        + pipe() + decimal(row.mr as int)
        + pipe() + decimal(row.fr as int)
        + pipe() + decimal(row.astr as int)
        + pipe() + decimal(row.asta as int)
        + pipe() + decimal(row.aagi as int)
        + pipe() + decimal(row.adex as int)
        + pipe() + decimal(row.acha as int)
        + pipe() + decimal(row.aint as int)
        + pipe() + decimal(row.awis as int)
        + pipe() + decimal(row.hp as int)
        + pipe() + decimal(row.mana as int)
        + pipe() + decimal(row.ac as int)
        + pipe() + decimal(row.deity as int)
}

fn stat_fields_bytes(row: &InventoryItemRow) -> (g: Vec<u8>)
    ensures
        g@ == stat_fields(*row),
{
    reveal(stat_fields);
    let mut g = decimal_i32(row.cr);
    push_pipe(&mut g);
    push_i32(&mut g, row.dr);
    push_pipe(&mut g);
    push_i32(&mut g, row.pr);
    push_pipe(&mut g);
    push_i32(&mut g, row.mr);
    push_pipe(&mut g);
    push_i32(&mut g, row.fr);
    push_pipe(&mut g);
    push_i32(&mut g, row.astr);
    push_pipe(&mut g);
    push_i32(&mut g, row.asta);
    push_pipe(&mut g);
    push_i32(&mut g, row.aagi);
    push_pipe(&mut g);
    push_i32(&mut g, row.adex);
    push_pipe(&mut g);
    push_i32(&mut g, row.acha);
    push_pipe(&mut g);
    push_i32(&mut g, row.aint);
    push_pipe(&mut g);
    push_i32(&mut g, row.awis);
    push_pipe(&mut g);
    push_i32(&mut g, row.hp);
    push_pipe(&mut g);
    push_i32(&mut g, row.mana);
    push_pipe(&mut g);
    push_i32(&mut g, row.ac);
    push_pipe(&mut g);
    push_i32(&mut g, row.deity);
    g
}

/// The skill modifier, bane damage, magic, casting, bard, light, delay, recommended level, elemental damage, range and damage.
#[verifier::opaque]
pub open spec fn skill_fields(row: InventoryItemRow) -> Seq<u8> {
    let bane_dmg_amt: i32 = if row.banedmgamt < 255 { row.banedmgamt } else { 255 };
    decimal(row.skillmodvalue as int)
        + pipe() + decimal(row.skillmodmax as int)
        + pipe() + decimal(row.skillmodtype as int)
        + pipe() + decimal(row.banedmgrace as int)
        + pipe() + decimal(bane_dmg_amt as int)
        + pipe() + decimal(row.banedmgbody as int)
        + pipe() + decimal(row.magic as int)
        + pipe() + decimal(row.casttime_ as int)
        + pipe() + decimal(row.reqlevel as int)
        + pipe() + decimal(row.bardtype as int)
        + pipe() + decimal(row.bardvalue as int)
        + pipe() + decimal(row.light as int)
        + pipe() + decimal(row.delay as int)
        + pipe() + decimal(row.reclevel as int)
        + pipe() + decimal(row.recskill as int)
        + pipe() + decimal(row.elemdmgtype as int)
        + pipe() + decimal(row.elemdmgamt as int)
        + pipe() + decimal(row.range as int)
        + pipe() + decimal(row.damage as int)
}

fn skill_fields_bytes(row: &InventoryItemRow) -> (g: Vec<u8>)
    ensures
        g@ == skill_fields(*row),
{
    reveal(skill_fields);
    let bane_dmg_amt: i32 = if row.banedmgamt < 255 { row.banedmgamt } else { 255 };
    let mut g = decimal_i32(row.skillmodvalue);
    push_pipe(&mut g);
    push_i32(&mut g, row.skillmodmax);
    push_pipe(&mut g);
    push_i32(&mut g, row.skillmodtype);
    push_pipe(&mut g);
    push_i32(&mut g, row.banedmgrace);
    push_pipe(&mut g);
    push_i32(&mut g, bane_dmg_amt);
    push_pipe(&mut g);
    push_i32(&mut g, row.banedmgbody);
    push_pipe(&mut g);
    push_i32(&mut g, row.magic);
    push_pipe(&mut g);
    push_i32(&mut g, row.casttime_);
    push_pipe(&mut g);
    push_i32(&mut g, row.reqlevel);
    push_pipe(&mut g);
    push_i32(&mut g, row.bardtype);
    push_pipe(&mut g);
    push_i32(&mut g, row.bardvalue);
    push_pipe(&mut g);
    push_i32(&mut g, row.light);
    push_pipe(&mut g);
    push_i32(&mut g, row.delay);
    push_pipe(&mut g);
    push_i32(&mut g, row.reclevel);
    push_pipe(&mut g);
    push_i32(&mut g, row.recskill);
    push_pipe(&mut g);
    push_i32(&mut g, row.elemdmgtype);
    push_pipe(&mut g);
    push_i32(&mut g, row.elemdmgamt);
    push_pipe(&mut g);
    push_i32(&mut g, row.range);
    push_pipe(&mut g);
    push_i32(&mut g, row.damage);
    g
}

/// The colour, class and race masks, charges, type, material, sell rate and cast time.
#[verifier::opaque]
pub open spec fn look_fields(row: InventoryItemRow) -> Seq<u8> {
    let color: u32 = row.color as u32;
    decimal(color as int)
        + pipe() + decimal(row.classes as int)
        + pipe() + decimal(row.races as int)
        + pipe() + decimal(0)
        + pipe() + decimal(row.maxcharges as int)
        + pipe() + decimal(row.itemtype as int)
        + pipe() + decimal(row.material as int)
        + pipe() + encode_utf8(row.sellrate_text@)
        + pipe() + decimal(0)
        + pipe() + decimal(row.casttime_ as int)
        + pipe() + decimal(0)
}

fn look_fields_bytes(row: &InventoryItemRow) -> (g: Vec<u8>)
    ensures
        g@ == look_fields(*row),
{
    reveal(look_fields);
    let color: u32 = row.color as u32;
    let mut g = decimal_u32(color);
    push_pipe(&mut g);
    push_i32(&mut g, row.classes);
    push_pipe(&mut g);
    push_i32(&mut g, row.races);
    push_pipe(&mut g);
    push_i32(&mut g, 0);
    push_pipe(&mut g);
    push_i32(&mut g, row.maxcharges);
    push_pipe(&mut g);
    push_i32(&mut g, row.itemtype);
    push_pipe(&mut g);
    push_i32(&mut g, row.material);
    push_pipe(&mut g);
    push_text(&mut g, row.sellrate_text.as_str());
    push_pipe(&mut g);
    push_i32(&mut g, 0);
    push_pipe(&mut g);
    push_i32(&mut g, row.casttime_);
    push_pipe(&mut g);
    push_i32(&mut g, 0);
    g
}

/// The proc rate, combat effects, defensive and offensive modifiers, charm file id and faction modifiers.
#[verifier::opaque]
pub open spec fn combat_fields(row: InventoryItemRow) -> Seq<u8> {
    let combat_effects: i32 = column_value(row.combateffects@);
    let charm_file_id: i32 = column_value(row.charmfileid@);
    decimal(row.procrate as int)
        + pipe() + decimal(combat_effects as int)
        + pipe() + decimal(row.shielding as int)
        + pipe() + decimal(row.stunresist as int)
        + pipe() + decimal(row.strikethrough as int)
        + pipe() + decimal(row.extradmgskill as int)
        + pipe() + decimal(row.extradmgamt as int)
        + pipe() + decimal(row.spellshield as int)
        + pipe() + decimal(row.avoidance as int)
        + pipe() + decimal(row.accuracy as int)
        + pipe() + decimal(charm_file_id as int)
        + pipe() + decimal(row.factionmod1 as int)
        + pipe() + decimal(row.factionmod2 as int)
        + pipe() + decimal(row.factionmod3 as int)
        + pipe() + decimal(row.factionmod4 as int)
        + pipe() + decimal(row.factionamt1 as int)
        + pipe() + decimal(row.factionamt2 as int)
        + pipe() + decimal(row.factionamt3 as int)
        + pipe() + decimal(row.factionamt4 as int)
}

fn combat_fields_bytes(row: &InventoryItemRow) -> (g: Vec<u8>)
    ensures
        g@ == combat_fields(*row),
{
    reveal(combat_fields);
    let combat_effects: i32 = column_value_of(row.combateffects.as_str());
    let charm_file_id: i32 = column_value_of(row.charmfileid.as_str());
    let mut g = decimal_i32(row.procrate);
    push_pipe(&mut g);
    push_i32(&mut g, combat_effects);
    push_pipe(&mut g);
    push_i32(&mut g, row.shielding);
    push_pipe(&mut g);
    push_i32(&mut g, row.stunresist);
    push_pipe(&mut g);
    push_i32(&mut g, row.strikethrough);
    push_pipe(&mut g);
    push_i32(&mut g, row.extradmgskill);
    push_pipe(&mut g);
    push_i32(&mut g, row.extradmgamt);
    push_pipe(&mut g);
    push_i32(&mut g, row.spellshield);
    push_pipe(&mut g);
    push_i32(&mut g, row.avoidance);
    push_pipe(&mut g);
    push_i32(&mut g, row.accuracy);
    push_pipe(&mut g);
    push_i32(&mut g, charm_file_id);
    push_pipe(&mut g);
    push_i32(&mut g, row.factionmod1);
    push_pipe(&mut g);
    push_i32(&mut g, row.factionmod2);
    push_pipe(&mut g);
    push_i32(&mut g, row.factionmod3);
    push_pipe(&mut g);
    push_i32(&mut g, row.factionmod4);
    push_pipe(&mut g);
    push_i32(&mut g, row.factionamt1);
    push_pipe(&mut g);
    push_i32(&mut g, row.factionamt2);
    push_pipe(&mut g);
    push_i32(&mut g, row.factionamt3);
    push_pipe(&mut g);
    push_i32(&mut g, row.factionamt4);
    g
}

/// The charm file, augment slots, LDoN theme and price, bag, book and file name.
#[verifier::opaque]
pub open spec fn container_fields(row: InventoryItemRow) -> Seq<u8> {
    encode_utf8(row.charmfile@)
        + pipe() + decimal(row.augtype as int)
        + pipe() + decimal(row.augslot1type as int)
        + pipe() + decimal(row.augslot1visible as int)
        + pipe() + decimal(row.augslot2type as int)
        + pipe() + decimal(row.augslot2visible as int)
        + pipe() + decimal(row.augslot3type as int)
        + pipe() + decimal(row.augslot3visible as int)
        + pipe() + decimal(row.augslot4type as int)
        + pipe() + decimal(row.augslot4visible as int)
        + pipe() + decimal(row.augslot5type as int)
        + pipe() + decimal(row.augslot5visible as int)
        + pipe() + decimal(row.ldontheme as int)
        + pipe() + decimal(row.ldonprice as int)
        + pipe() + decimal(row.ldonsold as int)
        + pipe() + decimal(row.bagtype as int)
        + pipe() + decimal(row.bagslots as int)
        + pipe() + decimal(row.bagsize as int)
        + pipe() + decimal(row.bagwr as int)
        + pipe() + decimal(row.book as int)
        + pipe() + decimal(row.booktype as int)
        + pipe() + encode_utf8(row.filename@)
}

fn container_fields_bytes(row: &InventoryItemRow) -> (g: Vec<u8>)
    ensures
        g@ == container_fields(*row),
{
    reveal(container_fields);
    let mut g = text_bytes(row.charmfile.as_str());
    push_pipe(&mut g);
    push_i32(&mut g, row.augtype);
    push_pipe(&mut g);
    push_i16(&mut g, row.augslot1type);
    push_pipe(&mut g);
    push_i16(&mut g, row.augslot1visible);
    push_pipe(&mut g);
    push_i16(&mut g, row.augslot2type);
    push_pipe(&mut g);
    push_i16(&mut g, row.augslot2visible);
    push_pipe(&mut g);
    push_i16(&mut g, row.augslot3type);
    push_pipe(&mut g);
    push_i16(&mut g, row.augslot3visible);
    push_pipe(&mut g);
    push_i16(&mut g, row.augslot4type);
    push_pipe(&mut g);
    push_i16(&mut g, row.augslot4visible);
    push_pipe(&mut g);
    push_i16(&mut g, row.augslot5type);
    push_pipe(&mut g);
    push_i16(&mut g, row.augslot5visible);
    push_pipe(&mut g);
    push_i32(&mut g, row.ldontheme);
    push_pipe(&mut g);
    push_i32(&mut g, row.ldonprice);
    push_pipe(&mut g);
    push_i32(&mut g, row.ldonsold);
    push_pipe(&mut g);
    push_i32(&mut g, row.bagtype);
    push_pipe(&mut g);
    push_i32(&mut g, row.bagslots);
    push_pipe(&mut g);
    push_i32(&mut g, row.bagsize);
    push_pipe(&mut g);
    push_i32(&mut g, row.bagwr);
    push_pipe(&mut g);
    push_i32(&mut g, row.book);
    push_pipe(&mut g);
    push_i32(&mut g, row.booktype);
    push_pipe(&mut g);
    push_text(&mut g, row.filename.as_str());
    g
}

/// The lore and flags, favor, endurance, heroic bonuses, haste, damage shield, recast and augment distiller.
#[verifier::opaque]
pub open spec fn bonus_fields(row: InventoryItemRow) -> Seq<u8> {
    decimal(row.banedmgraceamt as int)
        + pipe() + decimal(row.augrestrict as int)
        + pipe() + decimal(row.loregroup as int)
        + pipe() + decimal(row.pendingloreflag as int)
        + pipe() + decimal(row.artifactflag as int)
        + pipe() + decimal(row.summonedflag as int)
        + pipe() + decimal(row.favor as int)
        + pipe() + decimal(row.fvnodrop as int)
        + pipe() + decimal(row.endur as int)
        + pipe() + decimal(row.dotshielding as int)
        + pipe() + decimal(row.attack as int)
        + pipe() + decimal(row.regen as int)
        + pipe() + decimal(row.manaregen as int)
        + pipe() + decimal(row.enduranceregen as int)
        + pipe() + decimal(row.haste as int)
        + pipe() + decimal(row.damageshield as int)
        + pipe() + decimal(row.recastdelay as int)
        + pipe() + decimal(row.recasttype as int)
        + pipe() + decimal(row.guildfavor as int)
        + pipe() + decimal(row.augdistiller as int)
}

fn bonus_fields_bytes(row: &InventoryItemRow) -> (g: Vec<u8>)
    ensures
        g@ == bonus_fields(*row),
{
    reveal(bonus_fields);
    let mut g = decimal_i32(row.banedmgraceamt);
    push_pipe(&mut g);
    push_i32(&mut g, row.augrestrict);
    push_pipe(&mut g);
    push_i32(&mut g, row.loregroup);
    push_pipe(&mut g);
    push_i16(&mut g, row.pendingloreflag);
    push_pipe(&mut g);
    push_i16(&mut g, row.artifactflag);
    push_pipe(&mut g);
    push_i16(&mut g, row.summonedflag);
    push_pipe(&mut g);
    push_i32(&mut g, row.favor);
    push_pipe(&mut g);
    push_i32(&mut g, row.fvnodrop);
    push_pipe(&mut g);
    push_i32(&mut g, row.endur);
    push_pipe(&mut g);
    push_i32(&mut g, row.dotshielding);
    push_pipe(&mut g);
    push_i32(&mut g, row.attack);
    push_pipe(&mut g);
    push_i32(&mut g, row.regen);
    push_pipe(&mut g);
    push_i32(&mut g, row.manaregen);
    push_pipe(&mut g);
    push_i32(&mut g, row.enduranceregen);
    push_pipe(&mut g);
    push_i32(&mut g, row.haste);
    push_pipe(&mut g);
    push_i32(&mut g, row.damageshield);
    push_pipe(&mut g);
    push_i32(&mut g, row.recastdelay);
    push_pipe(&mut g);
    push_i32(&mut g, row.recasttype);
    push_pipe(&mut g);
    push_i32(&mut g, row.guildfavor);
    push_pipe(&mut g);
    push_i32(&mut g, row.augdistiller);
    g
}

/// The attunement, pet, point type, potion belt and stacking fields.
#[verifier::opaque]
pub open spec fn flag_fields(row: InventoryItemRow) -> Seq<u8> {
    decimal(0)
        + pipe() + decimal(0)
        + pipe() + decimal(row.attuneable as int)
        + pipe() + decimal(row.nopet as int)
        + pipe() + decimal(0)
        + pipe() + decimal(row.pointtype as int)
        + pipe() + decimal(row.potionbelt as int)
        + pipe() + decimal(row.potionbeltslots as int)
        + pipe() + decimal(row.stacksize as int)
        + pipe() + decimal(row.notransfer as int)
        + pipe() + decimal(row.stackable as int)
}

fn flag_fields_bytes(row: &InventoryItemRow) -> (g: Vec<u8>)
    ensures
        g@ == flag_fields(*row),
{
    reveal(flag_fields);
    let mut g = decimal_i32(0);
    push_pipe(&mut g);
    push_i32(&mut g, 0);
    push_pipe(&mut g);
    push_i32(&mut g, row.attuneable);
    push_pipe(&mut g);
    push_i32(&mut g, row.nopet);
    push_pipe(&mut g);
    push_i32(&mut g, 0);
    push_pipe(&mut g);
    push_i32(&mut g, row.pointtype);
    push_pipe(&mut g);
    push_i32(&mut g, row.potionbelt);
    push_pipe(&mut g);
    push_i32(&mut g, row.potionbeltslots);
    push_pipe(&mut g);
    push_i32(&mut g, row.stacksize);
    push_pipe(&mut g);
    push_i32(&mut g, row.notransfer);
    push_pipe(&mut g);
    push_i32(&mut g, row.stackable);
    g
}

/// The click, proc, worn, focus and scroll effects.
#[verifier::opaque]
pub open spec fn effect_fields(row: InventoryItemRow) -> Seq<u8> {
    decimal(row.clickeffect as int)
        + pipe() + decimal(row.clicktype as int)
        + pipe() + decimal(row.clicklevel2 as int)
        + pipe() + decimal(row.clicklevel as int)
        + pipe() + decimal(0)
        + pipe() + decimal(row.proceffect as int)
        + pipe() + decimal(row.proctype as int)
        + pipe() + decimal(row.proclevel2 as int)
        + pipe() + decimal(row.proclevel as int)
        + pipe() + decimal(0)
        + pipe() + decimal(row.worneffect as int)
        + pipe() + decimal(row.worntype as int)
        + pipe() + decimal(row.wornlevel2 as int)
        + pipe() + decimal(row.wornlevel as int)
        + pipe() + decimal(0)
        + pipe() + decimal(row.focuseffect as int)
        + pipe() + decimal(row.focustype as int)
        + pipe() + decimal(row.focuslevel2 as int)
        + pipe() + decimal(row.focuslevel as int)
        + pipe() + decimal(0)
        + pipe() + decimal(row.scrolleffect as int)
        + pipe() + decimal(row.scrolltype as int)
        + pipe() + decimal(row.scrolllevel2 as int)
        + pipe() + decimal(row.scrolllevel as int)
        + pipe() + decimal(0)
}

fn effect_fields_bytes(row: &InventoryItemRow) -> (g: Vec<u8>)
    ensures
        g@ == effect_fields(*row),
{
    reveal(effect_fields);
    let mut g = decimal_i32(row.clickeffect);
    push_pipe(&mut g);
    push_i32(&mut g, row.clicktype);
    push_pipe(&mut g);
    push_i32(&mut g, row.clicklevel2);
    push_pipe(&mut g);
    push_i32(&mut g, row.clicklevel);
    push_pipe(&mut g);
    push_i32(&mut g, 0);
    push_pipe(&mut g);
    push_i32(&mut g, row.proceffect);
    push_pipe(&mut g);
    push_i32(&mut g, row.proctype);
    push_pipe(&mut g);
    push_i32(&mut g, row.proclevel2);
    push_pipe(&mut g);
    push_i32(&mut g, row.proclevel);
    push_pipe(&mut g);
    push_i32(&mut g, 0);
    push_pipe(&mut g);
    push_i32(&mut g, row.worneffect);
    push_pipe(&mut g);
    push_i32(&mut g, row.worntype);
    push_pipe(&mut g);
    push_i32(&mut g, row.wornlevel2);
    push_pipe(&mut g);
    push_i32(&mut g, row.wornlevel);
    push_pipe(&mut g);
    push_i32(&mut g, 0);
    push_pipe(&mut g);
    push_i32(&mut g, row.focuseffect);
    push_pipe(&mut g);
    push_i32(&mut g, row.focustype);
    push_pipe(&mut g);
    push_i32(&mut g, row.focuslevel2);
    push_pipe(&mut g);
    push_i32(&mut g, row.focuslevel);
    push_pipe(&mut g);
    push_i32(&mut g, 0);
    push_pipe(&mut g);
    push_i32(&mut g, row.scrolleffect);
    push_pipe(&mut g);
    push_i32(&mut g, row.scrolltype);
    push_pipe(&mut g);
    push_i32(&mut g, row.scrolllevel2);
    push_pipe(&mut g);
    push_i32(&mut g, row.scrolllevel);
    push_pipe(&mut g);
    push_i32(&mut g, 0);
    g
}

/// The record for an inventory row with instance serial `serial`: the
/// instance fields, then the item fields in quotes, then ten empty
/// sub-item fields and a NUL.
///
/// Stackable items send their charges as the stack size and a charge count
/// of 1 for item type 21 (0 otherwise); other items send no stack size and
/// their charges. The slot is renumbered for the client, weight and bane
/// damage are capped at 255, bits 21 and 22 of the slot mask are swapped
/// and bit 22 cleared, the colour is sent as an unsigned 32-bit value, and
/// the two numeric text columns count as 0 when they do not parse.
pub open spec fn item_record(row: InventoryItemRow, serial: i32) -> Seq<u8> {
    (instance_fields(row, serial) + pipe() + quote() + identity_fields(row)
        + pipe() + stat_fields(row)
        + pipe() + skill_fields(row)
        + pipe() + look_fields(row)
        + pipe() + combat_fields(row)
        + pipe() + container_fields(row)
        + pipe() + bonus_fields(row)
        + pipe() + flag_fields(row)
        + pipe() + effect_fields(row)
        + quote() + repeated(PIPE, 10)).push(0u8)
}

/// The record that sends an inventory item to the client.
pub fn serialize_titanium_item(row: &InventoryItemRow, serial: i32) -> (out: Vec<u8>)
    ensures
        out@ == item_record(*row, serial),
{
    let mut out = instance_fields_bytes(row, serial);
    push_pipe(&mut out);
    push_quote(&mut out);
    let g = identity_fields_bytes(row);
    push_all(&mut out, g.as_slice());
    push_pipe(&mut out);
    let g = stat_fields_bytes(row);
    push_all(&mut out, g.as_slice());
    push_pipe(&mut out);
    let g = skill_fields_bytes(row);
    push_all(&mut out, g.as_slice());
    push_pipe(&mut out);
    let g = look_fields_bytes(row);
    push_all(&mut out, g.as_slice());
    push_pipe(&mut out);
    let g = combat_fields_bytes(row);
    push_all(&mut out, g.as_slice());
    push_pipe(&mut out);
    let g = container_fields_bytes(row);
    push_all(&mut out, g.as_slice());
    push_pipe(&mut out);
    let g = bonus_fields_bytes(row);
    push_all(&mut out, g.as_slice());
    push_pipe(&mut out);
    let g = flag_fields_bytes(row);
    push_all(&mut out, g.as_slice());
    push_pipe(&mut out);
    let g = effect_fields_bytes(row);
    push_all(&mut out, g.as_slice());
    push_quote(&mut out);
    push_repeated(&mut out, PIPE, 10);
    out.push(0u8);
    out
}

} // verus!
