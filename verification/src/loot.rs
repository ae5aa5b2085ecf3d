//! Loot: the items and coins a slain NPC leaves. Candidate drops come in
//! groups (loot drops); each group may drop at all, then rolls its entries
//! a number of times, up to its drop limit per round; coins are a roll
//! between the loot table's minimum and maximum.

use vstd::prelude::*;

use crate::item::InventoryItemRow;
use crate::transport::{money_split, split_money};
use crate::zone_client::random_i32_inclusive;

verus! {

/// A candidate drop: the loot drop (group) it belongs to, the group's
/// multiplier and drop limit, the charges it drops with, and the item.
pub struct LootCandidateRow {
    pub lootdrop_id: i32,
    pub group_multiplier: i32,
    pub group_droplimit: i32,
    pub item_charges: i32,
    pub itemclass: i32,
    pub name: String,
    pub lore: String,
    pub idfile: String,
    pub item_db_id: i32,
    pub weight: i32,
    pub norent: i32,
    pub nodrop: i32,
    pub size: i32,
    pub slots: i32,
    pub price: i32,
    pub icon: i32,
    pub benefitflag: i32,
    pub tradeskills: i32,
    pub cr: i32,
    pub dr: i32,
    pub pr: i32,
    pub mr: i32,
    pub fr: i32,
    pub astr: i32,
    pub asta: i32,
    pub aagi: i32,
    pub adex: i32,
    pub acha: i32,
    pub aint: i32,
    pub awis: i32,
    pub hp: i32,
    pub mana: i32,
    pub ac: i32,
    pub deity: i32,
    pub skillmodvalue: i32,
    pub skillmodmax: i32,
    pub skillmodtype: i32,
    pub banedmgrace: i32,
    pub banedmgamt: i32,
    pub banedmgbody: i32,
    pub magic: i32,
    pub casttime_: i32,
    pub reqlevel: i32,
    pub bardtype: i32,
    pub bardvalue: i32,
    pub light: i32,
    pub delay: i32,
    pub reclevel: i32,
    pub recskill: i32,
    pub elemdmgtype: i32,
    pub elemdmgamt: i32,
    pub range: i32,
    pub damage: i32,
    pub color: i64,
    pub classes: i32,
    pub races: i32,
    pub maxcharges: i32,
    pub itemtype: i32,
    pub material: i32,
    /// The item's sell rate as the client reads it: decimal text with
    /// six digits after the point.
    pub sellrate_text: String,
    pub procrate: i32,
    pub combateffects: String,
    pub shielding: i32,
    pub stunresist: i32,
    pub strikethrough: i32,
    pub extradmgskill: i32,
    pub extradmgamt: i32,
    pub spellshield: i32,
    pub avoidance: i32,
    pub accuracy: i32,
    pub charmfileid: String,
    pub factionmod1: i32,
    pub factionmod2: i32,
    pub factionmod3: i32,
    pub factionmod4: i32,
    pub factionamt1: i32,
    pub factionamt2: i32,
    pub factionamt3: i32,
    pub factionamt4: i32,
    pub charmfile: String,
    pub augtype: i32,
    pub augslot1type: i16,
    pub augslot1visible: i16,
    pub augslot2type: i16,
    pub augslot2visible: i16,
    pub augslot3type: i16,
    pub augslot3visible: i16,
    pub augslot4type: i16,
    pub augslot4visible: i16,
    pub augslot5type: i16,
    pub augslot5visible: i16,
    pub ldontheme: i32,
    pub ldonprice: i32,
    pub ldonsold: i32,
    pub bagtype: i32,
    pub bagslots: i32,
    pub bagsize: i32,
    pub bagwr: i32,
    pub book: i32,
    pub booktype: i32,
    pub filename: String,
    pub banedmgraceamt: i32,
    pub augrestrict: i32,
    pub loregroup: i32,
    pub pendingloreflag: i16,
    pub artifactflag: i16,
    pub summonedflag: i16,
    pub favor: i32,
    pub fvnodrop: i32,
    pub endur: i32,
    pub dotshielding: i32,
    pub attack: i32,
    pub regen: i32,
    pub manaregen: i32,
    pub enduranceregen: i32,
    pub haste: i32,
    pub damageshield: i32,
    pub recastdelay: i32,
    pub recasttype: i32,
    pub guildfavor: i32,
    pub augdistiller: i32,
    pub attuneable: i32,
    pub nopet: i32,
    pub pointtype: i32,
    pub potionbelt: i32,
    pub potionbeltslots: i32,
    pub stacksize: i32,
    pub notransfer: i32,
    pub stackable: i32,
    pub clickeffect: i32,
    pub clicktype: i32,
    pub clicklevel2: i32,
    pub clicklevel: i32,
    pub proceffect: i32,
    pub proctype: i32,
    pub proclevel2: i32,
    pub proclevel: i32,
    pub worneffect: i32,
    pub worntype: i32,
    pub wornlevel2: i32,
    pub wornlevel: i32,
    pub focuseffect: i32,
    pub focustype: i32,
    pub focuslevel2: i32,
    pub focuslevel: i32,
    pub scrolleffect: i32,
    pub scrolltype: i32,
    pub scrolllevel2: i32,
    pub scrolllevel: i32,
}

/// The inventory row a candidate becomes in loot slot `loot_slot`.
pub open spec fn candidate_item(c: LootCandidateRow, loot_slot: i32) -> InventoryItemRow {
    InventoryItemRow {
        slot_id: loot_slot,
        item_id: c.item_db_id,
        charges: c.item_charges as i16,
        itemclass: c.itemclass,
        name: c.name,
        lore: c.lore,
        idfile: c.idfile,
        item_db_id: c.item_db_id,
        weight: c.weight,
        norent: c.norent,
        nodrop: c.nodrop,
        size: c.size,
        slots: c.slots,
        price: c.price,
        icon: c.icon,
        benefitflag: c.benefitflag,
        tradeskills: c.tradeskills,
        cr: c.cr,
        dr: c.dr,
        pr: c.pr,
        mr: c.mr,
        fr: c.fr,
        astr: c.astr,
        asta: c.asta,
        aagi: c.aagi,
        adex: c.adex,
        acha: c.acha,
        aint: c.aint,
        awis: c.awis,
        hp: c.hp,
        mana: c.mana,
        ac: c.ac,
        deity: c.deity,
        skillmodvalue: c.skillmodvalue,
        skillmodmax: c.skillmodmax,
        skillmodtype: c.skillmodtype,
        banedmgrace: c.banedmgrace,
        banedmgamt: c.banedmgamt,
        banedmgbody: c.banedmgbody,
        magic: c.magic,
        casttime_: c.casttime_,
        reqlevel: c.reqlevel,
        bardtype: c.bardtype,
        bardvalue: c.bardvalue,
        light: c.light,
        delay: c.delay,
        reclevel: c.reclevel,
        recskill: c.recskill,
        elemdmgtype: c.elemdmgtype,
        elemdmgamt: c.elemdmgamt,
        range: c.range,
        damage: c.damage,
        color: c.color,
        classes: c.classes,
        races: c.races,
        maxcharges: c.maxcharges,
        itemtype: c.itemtype,
        material: c.material,
        sellrate_text: c.sellrate_text,
        procrate: c.procrate,
        combateffects: c.combateffects,
        shielding: c.shielding,
        stunresist: c.stunresist,
        strikethrough: c.strikethrough,
        extradmgskill: c.extradmgskill,
        extradmgamt: c.extradmgamt,
        spellshield: c.spellshield,
        avoidance: c.avoidance,
        accuracy: c.accuracy,
        charmfileid: c.charmfileid,
        factionmod1: c.factionmod1,
        factionmod2: c.factionmod2,
        factionmod3: c.factionmod3,
        factionmod4: c.factionmod4,
        factionamt1: c.factionamt1,
        factionamt2: c.factionamt2,
        factionamt3: c.factionamt3,
        factionamt4: c.factionamt4,
        charmfile: c.charmfile,
        augtype: c.augtype,
        augslot1type: c.augslot1type,
        augslot1visible: c.augslot1visible,
        augslot2type: c.augslot2type,
        augslot2visible: c.augslot2visible,
        augslot3type: c.augslot3type,
        augslot3visible: c.augslot3visible,
        augslot4type: c.augslot4type,
        augslot4visible: c.augslot4visible,
        augslot5type: c.augslot5type,
        augslot5visible: c.augslot5visible,
        ldontheme: c.ldontheme,
        ldonprice: c.ldonprice,
        ldonsold: c.ldonsold,
        bagtype: c.bagtype,
        bagslots: c.bagslots,
        bagsize: c.bagsize,
        bagwr: c.bagwr,
        book: c.book,
        booktype: c.booktype,
        filename: c.filename,
        banedmgraceamt: c.banedmgraceamt,
        augrestrict: c.augrestrict,
        loregroup: c.loregroup,
        pendingloreflag: c.pendingloreflag,
        artifactflag: c.artifactflag,
        summonedflag: c.summonedflag,
        favor: c.favor,
        fvnodrop: c.fvnodrop,
        endur: c.endur,
        dotshielding: c.dotshielding,
        attack: c.attack,
        regen: c.regen,
        manaregen: c.manaregen,
        enduranceregen: c.enduranceregen,
        haste: c.haste,
        damageshield: c.damageshield,
        recastdelay: c.recastdelay,
        recasttype: c.recasttype,
        guildfavor: c.guildfavor,
        augdistiller: c.augdistiller,
        attuneable: c.attuneable,
        nopet: c.nopet,
        pointtype: c.pointtype,
        potionbelt: c.potionbelt,
        potionbeltslots: c.potionbeltslots,
        stacksize: c.stacksize,
        notransfer: c.notransfer,
        stackable: c.stackable,
        clickeffect: c.clickeffect,
        clicktype: c.clicktype,
        clicklevel2: c.clicklevel2,
        clicklevel: c.clicklevel,
        proceffect: c.proceffect,
        proctype: c.proctype,
        proclevel2: c.proclevel2,
        proclevel: c.proclevel,
        worneffect: c.worneffect,
        worntype: c.worntype,
        wornlevel2: c.wornlevel2,
        wornlevel: c.wornlevel,
        focuseffect: c.focuseffect,
        focustype: c.focustype,
        focuslevel2: c.focuslevel2,
        focuslevel: c.focuslevel,
        scrolleffect: c.scrolleffect,
        scrolltype: c.scrolltype,
        scrolllevel2: c.scrolllevel2,
        scrolllevel: c.scrolllevel,
    }
}

impl LootCandidateRow {
    /// The inventory row this candidate becomes in loot slot `loot_slot`:
    /// the item, with the candidate's charges (cut to 16 bits).
    pub fn into_inventory_item(self, loot_slot: i32) -> (item: InventoryItemRow)
        ensures
            item == candidate_item(self, loot_slot),
    {
        InventoryItemRow {
            slot_id: loot_slot,
            item_id: self.item_db_id,
            charges: self.item_charges as i16,
            itemclass: self.itemclass,
            name: self.name,
            lore: self.lore,
            idfile: self.idfile,
            item_db_id: self.item_db_id,
            weight: self.weight,
            norent: self.norent,
            nodrop: self.nodrop,
            size: self.size,
            slots: self.slots,
            price: self.price,
            icon: self.icon,
            benefitflag: self.benefitflag,
            tradeskills: self.tradeskills,
            cr: self.cr,
            dr: self.dr,
            pr: self.pr,
            mr: self.mr,
            fr: self.fr,
            astr: self.astr,
            asta: self.asta,
            aagi: self.aagi,
            adex: self.adex,
            acha: self.acha,
            aint: self.aint,
            awis: self.awis,
            hp: self.hp,
            mana: self.mana,
            ac: self.ac,
            deity: self.deity,
            skillmodvalue: self.skillmodvalue,
            skillmodmax: self.skillmodmax,
            skillmodtype: self.skillmodtype,
            banedmgrace: self.banedmgrace,
            banedmgamt: self.banedmgamt,
            banedmgbody: self.banedmgbody,
            magic: self.magic,
            casttime_: self.casttime_,
            reqlevel: self.reqlevel,
            bardtype: self.bardtype,
            bardvalue: self.bardvalue,
            light: self.light,
            delay: self.delay,
            reclevel: self.reclevel,
            recskill: self.recskill,
            elemdmgtype: self.elemdmgtype,
            elemdmgamt: self.elemdmgamt,
            range: self.range,
            damage: self.damage,
            color: self.color,
            classes: self.classes,
            races: self.races,
            maxcharges: self.maxcharges,
            itemtype: self.itemtype,
            material: self.material,
            sellrate_text: self.sellrate_text,
            procrate: self.procrate,
            combateffects: self.combateffects,
            shielding: self.shielding,
            stunresist: self.stunresist,
            strikethrough: self.strikethrough,
            extradmgskill: self.extradmgskill,
            extradmgamt: self.extradmgamt,
            spellshield: self.spellshield,
            avoidance: self.avoidance,
            accuracy: self.accuracy,
            charmfileid: self.charmfileid,
            factionmod1: self.factionmod1,
            factionmod2: self.factionmod2,
            factionmod3: self.factionmod3,
            factionmod4: self.factionmod4,
            factionamt1: self.factionamt1,
            factionamt2: self.factionamt2,
            factionamt3: self.factionamt3,
            factionamt4: self.factionamt4,
            charmfile: self.charmfile,
            augtype: self.augtype,
            augslot1type: self.augslot1type,
            augslot1visible: self.augslot1visible,
            augslot2type: self.augslot2type,
            augslot2visible: self.augslot2visible,
            augslot3type: self.augslot3type,
            augslot3visible: self.augslot3visible,
            augslot4type: self.augslot4type,
            augslot4visible: self.augslot4visible,
            augslot5type: self.augslot5type,
            augslot5visible: self.augslot5visible,
            ldontheme: self.ldontheme,
            ldonprice: self.ldonprice,
            ldonsold: self.ldonsold,
            bagtype: self.bagtype,
            bagslots: self.bagslots,
            bagsize: self.bagsize,
            bagwr: self.bagwr,
            book: self.book,
            booktype: self.booktype,
            filename: self.filename,
            banedmgraceamt: self.banedmgraceamt,
            augrestrict: self.augrestrict,
            loregroup: self.loregroup,
            pendingloreflag: self.pendingloreflag,
            artifactflag: self.artifactflag,
            summonedflag: self.summonedflag,
            favor: self.favor,
            fvnodrop: self.fvnodrop,
            endur: self.endur,
            dotshielding: self.dotshielding,
            attack: self.attack,
            regen: self.regen,
            manaregen: self.manaregen,
            enduranceregen: self.enduranceregen,
            haste: self.haste,
            damageshield: self.damageshield,
            recastdelay: self.recastdelay,
            recasttype: self.recasttype,
            guildfavor: self.guildfavor,
            augdistiller: self.augdistiller,
            attuneable: self.attuneable,
            nopet: self.nopet,
            pointtype: self.pointtype,
            potionbelt: self.potionbelt,
            potionbeltslots: self.potionbeltslots,
            stacksize: self.stacksize,
            notransfer: self.notransfer,
            stackable: self.stackable,
            clickeffect: self.clickeffect,
            clicktype: self.clicktype,
            clicklevel2: self.clicklevel2,
            clicklevel: self.clicklevel,
            proceffect: self.proceffect,
            proctype: self.proctype,
            proclevel2: self.proclevel2,
            proclevel: self.proclevel,
            worneffect: self.worneffect,
            worntype: self.worntype,
            wornlevel2: self.wornlevel2,
            wornlevel: self.wornlevel,
            focuseffect: self.focuseffect,
            focustype: self.focustype,
            focuslevel2: self.focuslevel2,
            focuslevel: self.focuslevel,
            scrolleffect: self.scrolleffect,
            scrolltype: self.scrolltype,
            scrolllevel2: self.scrolllevel2,
            scrolllevel: self.scrolllevel,
        }
    }
}

/// Whether `item` holds what candidate `c` becomes in loot slot `loot_slot`
/// (texts compared by content).
pub open spec fn is_candidate_item(item: InventoryItemRow, c: LootCandidateRow, loot_slot: i32) -> bool {
    &&& item.slot_id == loot_slot
    &&& item.item_id == c.item_db_id
    &&& item.charges == c.item_charges as i16
    &&& item.itemclass == c.itemclass
    &&& item.name@ == c.name@
    &&& item.lore@ == c.lore@
    &&& item.idfile@ == c.idfile@
    &&& item.item_db_id == c.item_db_id
    &&& item.weight == c.weight
    &&& item.norent == c.norent
    &&& item.nodrop == c.nodrop
    &&& item.size == c.size
    &&& item.slots == c.slots
    &&& item.price == c.price
    &&& item.icon == c.icon
    &&& item.benefitflag == c.benefitflag
    &&& item.tradeskills == c.tradeskills
    &&& item.cr == c.cr
    &&& item.dr == c.dr
    &&& item.pr == c.pr
    &&& item.mr == c.mr
    &&& item.fr == c.fr
    &&& item.astr == c.astr
    &&& item.asta == c.asta
    &&& item.aagi == c.aagi
    &&& item.adex == c.adex
    &&& item.acha == c.acha
    &&& item.aint == c.aint
    &&& item.awis == c.awis
    &&& item.hp == c.hp
    &&& item.mana == c.mana
    &&& item.ac == c.ac
    &&& item.deity == c.deity
    &&& item.skillmodvalue == c.skillmodvalue
    &&& item.skillmodmax == c.skillmodmax
    &&& item.skillmodtype == c.skillmodtype
    &&& item.banedmgrace == c.banedmgrace
    &&& item.banedmgamt == c.banedmgamt
    &&& item.banedmgbody == c.banedmgbody
    &&& item.magic == c.magic
    &&& item.casttime_ == c.casttime_
    &&& item.reqlevel == c.reqlevel
    &&& item.bardtype == c.bardtype
    &&& item.bardvalue == c.bardvalue
    &&& item.light == c.light
    &&& item.delay == c.delay
    &&& item.reclevel == c.reclevel
    &&& item.recskill == c.recskill
    &&& item.elemdmgtype == c.elemdmgtype
    &&& item.elemdmgamt == c.elemdmgamt
    &&& item.range == c.range
    &&& item.damage == c.damage
    &&& item.color == c.color
    &&& item.classes == c.classes
    &&& item.races == c.races
    &&& item.maxcharges == c.maxcharges
    &&& item.itemtype == c.itemtype
    &&& item.material == c.material
    &&& item.sellrate_text@ == c.sellrate_text@
    &&& item.procrate == c.procrate
    &&& item.combateffects@ == c.combateffects@
    &&& item.shielding == c.shielding
    &&& item.stunresist == c.stunresist
    &&& item.strikethrough == c.strikethrough
    &&& item.extradmgskill == c.extradmgskill
    &&& item.extradmgamt == c.extradmgamt
    &&& item.spellshield == c.spellshield
    &&& item.avoidance == c.avoidance
    &&& item.accuracy == c.accuracy
    &&& item.charmfileid@ == c.charmfileid@
    &&& item.factionmod1 == c.factionmod1
    &&& item.factionmod2 == c.factionmod2
    &&& item.factionmod3 == c.factionmod3
    &&& item.factionmod4 == c.factionmod4
    &&& item.factionamt1 == c.factionamt1
    &&& item.factionamt2 == c.factionamt2
    &&& item.factionamt3 == c.factionamt3
    &&& item.factionamt4 == c.factionamt4
    &&& item.charmfile@ == c.charmfile@
    &&& item.augtype == c.augtype
    &&& item.augslot1type == c.augslot1type
    &&& item.augslot1visible == c.augslot1visible
    &&& item.augslot2type == c.augslot2type
    &&& item.augslot2visible == c.augslot2visible
    &&& item.augslot3type == c.augslot3type
    &&& item.augslot3visible == c.augslot3visible
    &&& item.augslot4type == c.augslot4type
    &&& item.augslot4visible == c.augslot4visible
    &&& item.augslot5type == c.augslot5type
    &&& item.augslot5visible == c.augslot5visible
    &&& item.ldontheme == c.ldontheme
    &&& item.ldonprice == c.ldonprice
    &&& item.ldonsold == c.ldonsold
    &&& item.bagtype == c.bagtype
    &&& item.bagslots == c.bagslots
    &&& item.bagsize == c.bagsize
    &&& item.bagwr == c.bagwr
    &&& item.book == c.book
    &&& item.booktype == c.booktype
    &&& item.filename@ == c.filename@
    &&& item.banedmgraceamt == c.banedmgraceamt
    &&& item.augrestrict == c.augrestrict
    &&& item.loregroup == c.loregroup
    &&& item.pendingloreflag == c.pendingloreflag
    &&& item.artifactflag == c.artifactflag
    &&& item.summonedflag == c.summonedflag
    &&& item.favor == c.favor
    &&& item.fvnodrop == c.fvnodrop
    &&& item.endur == c.endur
    &&& item.dotshielding == c.dotshielding
    &&& item.attack == c.attack
    &&& item.regen == c.regen
    &&& item.manaregen == c.manaregen
    &&& item.enduranceregen == c.enduranceregen
    &&& item.haste == c.haste
    &&& item.damageshield == c.damageshield
    &&& item.recastdelay == c.recastdelay
    &&& item.recasttype == c.recasttype
    &&& item.guildfavor == c.guildfavor
    &&& item.augdistiller == c.augdistiller
    &&& item.attuneable == c.attuneable
    &&& item.nopet == c.nopet
    &&& item.pointtype == c.pointtype
    &&& item.potionbelt == c.potionbelt
    &&& item.potionbeltslots == c.potionbeltslots
    &&& item.stacksize == c.stacksize
    &&& item.notransfer == c.notransfer
    &&& item.stackable == c.stackable
    &&& item.clickeffect == c.clickeffect
    &&& item.clicktype == c.clicktype
    &&& item.clicklevel2 == c.clicklevel2
    &&& item.clicklevel == c.clicklevel
    &&& item.proceffect == c.proceffect
    &&& item.proctype == c.proctype
    &&& item.proclevel2 == c.proclevel2
    &&& item.proclevel == c.proclevel
    &&& item.worneffect == c.worneffect
    &&& item.worntype == c.worntype
    &&& item.wornlevel2 == c.wornlevel2
    &&& item.wornlevel == c.wornlevel
    &&& item.focuseffect == c.focuseffect
    &&& item.focustype == c.focustype
    &&& item.focuslevel2 == c.focuslevel2
    &&& item.focuslevel == c.focuslevel
    &&& item.scrolleffect == c.scrolleffect
    &&& item.scrolltype == c.scrolltype
    &&& item.scrolllevel2 == c.scrolllevel2
    &&& item.scrolllevel == c.scrolllevel
}

fn item_from_candidate(c: &LootCandidateRow, loot_slot: i32) -> (item: InventoryItemRow)
    ensures
        is_candidate_item(item, *c, loot_slot),
{
    InventoryItemRow {
        slot_id: loot_slot,
        item_id: c.item_db_id,
        charges: c.item_charges as i16,
        itemclass: c.itemclass,
        name: c.name.clone(),
        lore: c.lore.clone(),
        idfile: c.idfile.clone(),
        item_db_id: c.item_db_id,
        weight: c.weight,
        norent: c.norent,
        nodrop: c.nodrop,
        size: c.size,
        slots: c.slots,
        price: c.price,
        icon: c.icon,
        benefitflag: c.benefitflag,
        tradeskills: c.tradeskills,
        cr: c.cr,
        dr: c.dr,
        pr: c.pr,
        mr: c.mr,
        fr: c.fr,
        astr: c.astr,
        asta: c.asta,
        aagi: c.aagi,
        adex: c.adex,
        acha: c.acha,
        aint: c.aint,
        awis: c.awis,
        hp: c.hp,
        mana: c.mana,
        ac: c.ac,
        deity: c.deity,
        skillmodvalue: c.skillmodvalue,
        skillmodmax: c.skillmodmax,
        skillmodtype: c.skillmodtype,
        banedmgrace: c.banedmgrace,
        banedmgamt: c.banedmgamt,
        banedmgbody: c.banedmgbody,
        magic: c.magic,
        casttime_: c.casttime_,
        reqlevel: c.reqlevel,
        bardtype: c.bardtype,
        bardvalue: c.bardvalue,
        light: c.light,
        delay: c.delay,
        reclevel: c.reclevel,
        recskill: c.recskill,
        elemdmgtype: c.elemdmgtype,
        elemdmgamt: c.elemdmgamt,
        range: c.range,
        damage: c.damage,
        color: c.color,
        classes: c.classes,
        races: c.races,
        maxcharges: c.maxcharges,
        itemtype: c.itemtype,
        material: c.material,
        sellrate_text: c.sellrate_text.clone(),
        procrate: c.procrate,
        combateffects: c.combateffects.clone(),
        shielding: c.shielding,
        stunresist: c.stunresist,
        strikethrough: c.strikethrough,
        extradmgskill: c.extradmgskill,
        extradmgamt: c.extradmgamt,
        spellshield: c.spellshield,
        avoidance: c.avoidance,
        accuracy: c.accuracy,
        charmfileid: c.charmfileid.clone(),
        factionmod1: c.factionmod1,
        factionmod2: c.factionmod2,
        factionmod3: c.factionmod3,
        factionmod4: c.factionmod4,
        factionamt1: c.factionamt1,
        factionamt2: c.factionamt2,
        factionamt3: c.factionamt3,
        factionamt4: c.factionamt4,
        charmfile: c.charmfile.clone(),
        augtype: c.augtype,
        augslot1type: c.augslot1type,
        augslot1visible: c.augslot1visible,
        augslot2type: c.augslot2type,
        augslot2visible: c.augslot2visible,
        augslot3type: c.augslot3type,
        augslot3visible: c.augslot3visible,
        augslot4type: c.augslot4type,
        augslot4visible: c.augslot4visible,
        augslot5type: c.augslot5type,
        augslot5visible: c.augslot5visible,
        ldontheme: c.ldontheme,
        ldonprice: c.ldonprice,
        ldonsold: c.ldonsold,
        bagtype: c.bagtype,
        bagslots: c.bagslots,
        bagsize: c.bagsize,
        bagwr: c.bagwr,
        book: c.book,
        booktype: c.booktype,
        filename: c.filename.clone(),
        banedmgraceamt: c.banedmgraceamt,
        augrestrict: c.augrestrict,
        loregroup: c.loregroup,
        pendingloreflag: c.pendingloreflag,
        artifactflag: c.artifactflag,
        summonedflag: c.summonedflag,
        favor: c.favor,
        fvnodrop: c.fvnodrop,
        endur: c.endur,
        dotshielding: c.dotshielding,
        attack: c.attack,
        regen: c.regen,
        manaregen: c.manaregen,
        enduranceregen: c.enduranceregen,
        haste: c.haste,
        damageshield: c.damageshield,
        recastdelay: c.recastdelay,
        recasttype: c.recasttype,
        guildfavor: c.guildfavor,
        augdistiller: c.augdistiller,
        attuneable: c.attuneable,
        nopet: c.nopet,
        pointtype: c.pointtype,
        potionbelt: c.potionbelt,
        potionbeltslots: c.potionbeltslots,
        stacksize: c.stacksize,
        notransfer: c.notransfer,
        stackable: c.stackable,
        clickeffect: c.clickeffect,
        clicktype: c.clicktype,
        clicklevel2: c.clicklevel2,
        clicklevel: c.clicklevel,
        proceffect: c.proceffect,
        proctype: c.proctype,
        proclevel2: c.proclevel2,
        proclevel: c.proclevel,
        worneffect: c.worneffect,
        worntype: c.worntype,
        wornlevel2: c.wornlevel2,
        wornlevel: c.wornlevel,
        focuseffect: c.focuseffect,
        focustype: c.focustype,
        focuslevel2: c.focuslevel2,
        focuslevel: c.focuslevel,
        scrolleffect: c.scrolleffect,
        scrolltype: c.scrolltype,
        scrolllevel2: c.scrolllevel2,
        scrolllevel: c.scrolllevel,
    }
}

/// The drop ids of a list of candidates.
pub open spec fn drop_ids(rows: Seq<LootCandidateRow>) -> Seq<i32> {
    rows.map_values(|r: LootCandidateRow| r.lootdrop_id)
}

/// The distinct values of `ids`, in order of first appearance.
pub open spec fn first_appearances(ids: Seq<i32>) -> Seq<i32>
    decreases ids.len(),
{
    if ids.len() == 0 {
        Seq::empty()
    } else {
        let d = first_appearances(ids.drop_last());
        if d.contains(ids.last()) {
            d
        } else {
            d.push(ids.last())
        }
    }
}

/// The positions in `ids` holding `id`, in order.
pub open spec fn positions_of(ids: Seq<i32>, id: i32) -> Seq<usize>
    decreases ids.len(),
{
    if ids.len() == 0 {
        Seq::empty()
    } else {
        let r = positions_of(ids.drop_last(), id);
        if ids.last() == id {
            r.push((ids.len() - 1) as usize)
        } else {
            r
        }
    }
}

/// The loot groups of candidates with drop ids `ids`: for each drop id, in
/// order of first appearance, the positions of its candidates, in order.
pub open spec fn loot_groups(ids: Seq<i32>) -> Seq<Seq<usize>> {
    first_appearances(ids).map_values(|id: i32| positions_of(ids, id))
}

/// The contents of a list of groups.
pub open spec fn groups_view(g: Seq<Vec<usize>>) -> Seq<Seq<usize>> {
    g.map_values(|v: Vec<usize>| v@)
}

proof fn lemma_first_appearances_distinct(ids: Seq<i32>)
    ensures
        forall|a: int, b: int|
            0 <= a < b < first_appearances(ids).len() ==> first_appearances(ids)[a]
                != first_appearances(ids)[b],
    decreases ids.len(),
{
    if ids.len() > 0 {
        lemma_first_appearances_distinct(ids.drop_last());
        let d = first_appearances(ids.drop_last());
        if !d.contains(ids.last()) {
            let f = d.push(ids.last());
            assert forall|a: int, b: int| 0 <= a < b < f.len() implies f[a] != f[b] by {
                if b == d.len() {
                    if f[a] == f[b] {
                        assert(d[a] == ids.last());
                        assert(d.contains(ids.last()));
                    }
                }
            }
        }
    }
}

/// Groups candidates by drop id, keeping each group's candidates in order
/// and the groups in order of their drop id's first appearance.
pub fn group_loot_candidates(rows: &Vec<LootCandidateRow>) -> (groups: Vec<Vec<usize>>)
    ensures
        groups_view(groups@) == loot_groups(drop_ids(rows@)),
{
    let ghost ids = drop_ids(rows@);
    let mut keys: Vec<i32> = Vec::new();
    let mut groups: Vec<Vec<usize>> = Vec::new();
    let mut i: usize = 0;
    assert(ids.take(0) =~= Seq::<i32>::empty());
    while i < rows.len()
        invariant
            i <= rows@.len(),
            ids == drop_ids(rows@),
            keys@ == first_appearances(ids.take(i as int)),
            groups@.len() == keys@.len(),
            forall|k: int|
                0 <= k < groups@.len() ==> (#[trigger] groups@[k])@ == positions_of(
                    ids.take(i as int),
                    keys@[k],
                ),
        decreases rows@.len() - i,
    {
        let id = rows[i].lootdrop_id;
        let ghost pre = ids.take(i as int);
        let ghost post = ids.take(i as int + 1);
        proof {
            assert(post.drop_last() =~= pre);
            assert(post.last() == id);
            lemma_first_appearances_distinct(pre);
        }
        let mut k: usize = 0;
        while k < keys.len()
            invariant_except_break
                k <= keys@.len(),
                forall|j: int| 0 <= j < k ==> keys@[j] != id,
            ensures
                k <= keys@.len(),
                forall|j: int| 0 <= j < k ==> keys@[j] != id,
                k < keys@.len() ==> keys@[k as int] == id,
            decreases keys@.len() - k,
        {
            if keys[k] == id {
                break;
            }
            k = k + 1;
        }
        let ghost old_groups = groups@;
        if k < keys.len() {
            assert(first_appearances(pre).contains(id));
            groups[k].push(i);
            proof {
                assert forall|j: int| 0 <= j < groups@.len() implies (#[trigger] groups@[j])@
                    == positions_of(post, keys@[j]) by {
                    if j != k {
                        assert(groups@[j] == old_groups[j]);
                    }
                }
            }
        } else {
            proof {
                assert(!first_appearances(pre).contains(id)) by {
                    if first_appearances(pre).contains(id) {
                        let j = choose|j: int| 0 <= j < first_appearances(pre).len()
                            && first_appearances(pre)[j] == id;
                        assert(keys@[j] != id);
                    }
                }
            }
            keys.push(id);
            let mut g: Vec<usize> = Vec::new();
            g.push(i);
            groups.push(g);
            proof {
                assert(positions_of(pre, id) =~= Seq::<usize>::empty()) by {
                    lemma_positions_absent(pre, id);
                }
                assert forall|j: int| 0 <= j < groups@.len() implies (#[trigger] groups@[j])@
                    == positions_of(post, keys@[j]) by {
                    if j < old_groups.len() {
                        assert(groups@[j] == old_groups[j]);
                    } else {
                        assert(groups@[j]@ =~= seq![i]);
                    }
                }
            }
        }
        i = i + 1;
    }
    assert(ids.take(i as int) =~= ids);
    assert(groups_view(groups@) =~= loot_groups(ids));
    groups
}

proof fn lemma_positions_absent(ids: Seq<i32>, id: i32)
    requires
        !first_appearances(ids).contains(id),
    ensures
        positions_of(ids, id) == Seq::<usize>::empty(),
    decreases ids.len(),
{
    if ids.len() > 0 {
        let d = first_appearances(ids.drop_last());
        if d.contains(id) {
            assert(first_appearances(ids).contains(id)) by {
                let j = choose|j: int| 0 <= j < d.len() && d[j] == id;
                if !d.contains(ids.last()) {
                    assert(d.push(ids.last())[j] == id);
                }
            }
        }
        if ids.last() == id {
            assert(first_appearances(ids).contains(id)) by {
                if d.contains(ids.last()) {
                } else {
                    assert(d.push(ids.last())[d.len() as int] == id);
                }
            }
        }
        lemma_positions_absent(ids.drop_last(), id);
    }
}

proof fn lemma_positions_bounded(ids: Seq<i32>, id: i32)
    ensures
        forall|e: int| 0 <= e < positions_of(ids, id).len() ==> positions_of(ids, id)[e] < ids.len(),
    decreases ids.len(),
{
    if ids.len() > 0 {
        lemma_positions_bounded(ids.drop_last(), id);
        let r = positions_of(ids.drop_last(), id);
        if ids.last() == id {
            let p = r.push((ids.len() - 1) as usize);
            assert forall|e: int| 0 <= e < p.len() implies p[e] < ids.len() by {
                if e < r.len() {
                    assert(p[e] == r[e]);
                }
            }
        }
    }
}

proof fn lemma_positions_nonempty(ids: Seq<i32>, id: i32)
    requires
        first_appearances(ids).contains(id),
    ensures
        positions_of(ids, id).len() > 0,
    decreases ids.len(),
{
    if ids.len() > 0 {
        let d = first_appearances(ids.drop_last());
        if ids.last() != id {
            if !d.contains(ids.last()) {
                let j = choose|j: int| 0 <= j < d.push(ids.last()).len() && d.push(ids.last())[j] == id;
                assert(d[j] == id);
            }
            lemma_positions_nonempty(ids.drop_last(), id);
        }
    }
}

/// Groups that are non-empty and name only candidates among the first `n`.
pub open spec fn valid_groups(n: nat, groups: Seq<Seq<usize>>) -> bool {
    forall|g: int|
        0 <= g < groups.len() ==> (#[trigger] groups[g]).len() > 0 && forall|e: int|
            0 <= e < groups[g].len() ==> groups[g][e] < n
}

/// The loot groups of a candidate list are valid groups of it.
pub proof fn lemma_loot_groups_valid(rows: Seq<LootCandidateRow>)
    ensures
        valid_groups(rows.len(), loot_groups(drop_ids(rows))),
{
    let ids = drop_ids(rows);
    let gs = loot_groups(ids);
    assert forall|g: int| 0 <= g < gs.len() implies (#[trigger] gs[g]).len() > 0 && forall|e: int|
        0 <= e < gs[g].len() ==> gs[g][e] < rows.len() by {
        let id = first_appearances(ids)[g];
        assert(first_appearances(ids).contains(id));
        lemma_positions_nonempty(ids, id);
        lemma_positions_bounded(ids, id);
    }
}

/// Rounds a group drops in: its first candidate's multiplier, at least 1.
pub open spec fn group_rounds(rows: Seq<LootCandidateRow>, group: Seq<usize>) -> nat {
    let m = rows[group[0] as int].group_multiplier;
    if m >= 1 {
        m as nat
    } else {
        1
    }
}

/// Most items a group drops per round (none when not positive): its first
/// candidate's drop limit.
pub open spec fn group_limit(rows: Seq<LootCandidateRow>, group: Seq<usize>) -> i32 {
    rows[group[0] as int].group_droplimit
}

/// One round of a group from entry `k` on, `picked` items already dropped
/// in it: each entry whose roll succeeds drops, until the limit is reached.
pub open spec fn round_picks(entries: Seq<usize>, rolls: Seq<bool>, limit: i32, k: nat, picked: nat) -> Seq<usize>
    decreases entries.len() - k,
{
    if k >= entries.len() || (limit > 0 && picked >= limit) {
        Seq::empty()
    } else if rolls[k as int] {
        seq![entries[k as int]] + round_picks(entries, rolls, limit, k + 1, picked + 1)
    } else {
        round_picks(entries, rolls, limit, k + 1, picked)
    }
}

/// The entries from `k` on whose item roll succeeded, in order, with no
/// drop limit applied.
pub open spec fn rolled_entries(entries: Seq<usize>, rolls: Seq<bool>, k: nat) -> Seq<usize>
    decreases entries.len() - k,
{
    if k >= entries.len() {
        Seq::empty()
    } else if rolls[k as int] {
        seq![entries[k as int]] + rolled_entries(entries, rolls, k + 1)
    } else {
        rolled_entries(entries, rolls, k + 1)
    }
}

proof fn lemma_round_picks_capped(entries: Seq<usize>, rolls: Seq<bool>, limit: i32, k: nat, picked: nat)
    requires
        limit > 0 ==> picked <= limit,
    ensures
        round_picks(entries, rolls, limit, k, picked) == if limit > 0 && rolled_entries(entries, rolls, k).len()
            > limit - picked {
            rolled_entries(entries, rolls, k).take(limit - picked)
        } else {
            rolled_entries(entries, rolls, k)
        },
    decreases entries.len() - k,
{
    let won = rolled_entries(entries, rolls, k);
    if k >= entries.len() {
    } else if limit > 0 && picked >= limit {
        assert(won.take(0) =~= Seq::<usize>::empty());
    } else if rolls[k as int] {
        lemma_round_picks_capped(entries, rolls, limit, k + 1, picked + 1);
        let rest = rolled_entries(entries, rolls, k + 1);
        if limit > 0 && rest.len() > limit - picked - 1 {
            assert(seq![entries[k as int]] + rest.take(limit - picked - 1) =~= won.take(limit - picked));
        }
    } else {
        lemma_round_picks_capped(entries, rolls, limit, k + 1, picked);
    }
}

/// Law: one round of a loot group drops the entries whose item roll
/// succeeded, in order, cut to the group's drop limit when it is positive:
/// a round never drops more than the limit.
pub proof fn law_round_respects_drop_limit(entries: Seq<usize>, rolls: Seq<bool>, limit: i32)
    ensures
        round_picks(entries, rolls, limit, 0, 0) == if limit > 0 && rolled_entries(entries, rolls, 0).len()
            > limit {
            rolled_entries(entries, rolls, 0).take(limit as int)
        } else {
            rolled_entries(entries, rolls, 0)
        },
        limit > 0 ==> round_picks(entries, rolls, limit, 0, 0).len() <= limit,
{
    lemma_round_picks_capped(entries, rolls, limit, 0, 0);
}

/// Law: a loot group with a positive drop limit drops at most that many
/// items in each of its rounds, so at most rounds times the limit in all.
pub proof fn law_group_respects_drop_limit(entries: Seq<usize>, rounds: Seq<Seq<bool>>, count: nat, limit: i32, r: nat)
    requires
        limit > 0,
        r <= count,
    ensures
        group_picks(entries, rounds, count, limit, r).len() <= (count - r) * limit,
    decreases count - r,
{
    if r < count {
        law_round_respects_drop_limit(entries, rounds[r as int], limit);
        law_group_respects_drop_limit(entries, rounds, count, limit, r + 1);
        assert((count - r) * limit == limit + (count - (r + 1)) * limit) by (nonlinear_arith);
    }
}

/// Rounds `r` to `count` of a group.
pub open spec fn group_picks(entries: Seq<usize>, rounds: Seq<Seq<bool>>, count: nat, limit: i32, r: nat) -> Seq<usize>
    decreases count - r,
{
    if r >= count {
        Seq::empty()
    } else {
        round_picks(entries, rounds[r as int], limit, 0, 0) + group_picks(entries, rounds, count, limit, r + 1)
    }
}

/// The candidates that drop from groups `g` on, in order: a group drops
/// only when its drop roll succeeds.
pub open spec fn loot_picks(
    rows: Seq<LootCandidateRow>,
    groups: Seq<Seq<usize>>,
    drops: Seq<bool>,
    rolls: Seq<Seq<Seq<bool>>>,
    g: nat,
) -> Seq<usize>
    decreases groups.len() - g,
{
    if g >= groups.len() {
        Seq::empty()
    } else {
        (if drops[g as int] {
            group_picks(
                groups[g as int],
                rolls[g as int],
                group_rounds(rows, groups[g as int]),
                group_limit(rows, groups[g as int]),
                0,
            )
        } else {
            Seq::empty()
        }) + loot_picks(rows, groups, drops, rolls, g + 1)
    }
}

/// The contents of the item rolls.
pub open spec fn rolls_view(r: Seq<Vec<Vec<bool>>>) -> Seq<Seq<Seq<bool>>> {
    r.map_values(|v: Vec<Vec<bool>>| v@.map_values(|w: Vec<bool>| w@))
}

/// There is a drop roll for each group and an item roll for every entry of
/// every round of every group.
pub open spec fn rolls_cover(
    rows: Seq<LootCandidateRow>,
    groups: Seq<Seq<usize>>,
    drops: Seq<bool>,
    rolls: Seq<Seq<Seq<bool>>>,
) -> bool {
    &&& drops.len() == groups.len()
    &&& rolls.len() == groups.len()
    &&& forall|g: int|
        0 <= g < groups.len() ==> (#[trigger] rolls[g]).len() >= group_rounds(rows, groups[g])
            && forall|r: int|
            0 <= r < group_rounds(rows, groups[g]) ==> rolls[g][r].len() >= groups[g].len()
}

/// Which candidates drop, given the outcome of each drop roll and item roll:
/// `drops[g]` says whether group `g` drops at all, `rolls[g][r][k]` whether
/// its entry `k` drops in round `r`.
pub fn select_loot(
    rows: &Vec<LootCandidateRow>,
    groups: &Vec<Vec<usize>>,
    drops: &Vec<bool>,
    rolls: &Vec<Vec<Vec<bool>>>,
) -> (picks: Vec<usize>)
    requires
        valid_groups(rows@.len(), groups_view(groups@)),
        rolls_cover(rows@, groups_view(groups@), drops@, rolls_view(rolls@)),
    ensures
        picks@ == loot_picks(rows@, groups_view(groups@), drops@, rolls_view(rolls@), 0),
        forall|j: int| 0 <= j < picks@.len() ==> picks@[j] < rows@.len(),
{
    proof {
        lemma_loot_picks_bounded(rows@, groups_view(groups@), drops@, rolls_view(rolls@), 0);
    }
    let ghost gv = groups_view(groups@);
    let ghost rv = rolls_view(rolls@);
    let ghost total = loot_picks(rows@, gv, drops@, rv, 0);
    let mut picks: Vec<usize> = Vec::new();
    let mut g: usize = 0;
    while g < groups.len()
        invariant
            g <= groups@.len(),
            gv == groups_view(groups@),
            rv == rolls_view(rolls@),
            valid_groups(rows@.len(), gv),
            rolls_cover(rows@, gv, drops@, rv),
            total == picks@ + loot_picks(rows@, gv, drops@, rv, g as nat),
        decreases groups@.len() - g,
    {
        let ghost rest = loot_picks(rows@, gv, drops@, rv, g as nat + 1);
        if drops[g] {
            let entries = &groups[g];
            assert(entries@ == gv[g as int]);
            assert(gv[g as int].len() > 0);
            let first = entries[0];
            let m = rows[first].group_multiplier;
            let count: usize = if m >= 1 {
                m as usize
            } else {
                1
            };
            let limit = rows[first].group_droplimit;
            let ghost rounds = rv[g as int];
            assert(count == group_rounds(rows@, gv[g as int]));
            assert(limit == group_limit(rows@, gv[g as int]));
            let mut r: usize = 0;
            while r < count
                invariant
                    r <= count,
                    gv == groups_view(groups@),
                    rv == rolls_view(rolls@),
                    g < groups@.len(),
                    entries@ == gv[g as int],
                    rounds == rv[g as int],
                    rolls@.len() == groups@.len(),
                    rounds.len() >= count,
                    forall|q: int| 0 <= q < count ==> rounds[q].len() >= entries@.len(),
                    total == picks@ + group_picks(entries@, rounds, count as nat, limit, r as nat) + rest,
                decreases count - r,
            {
                let ghost rest_r = group_picks(entries@, rounds, count as nat, limit, r as nat + 1);
                let rg = &rolls[g];
                assert(rg@.map_values(|w: Vec<bool>| w@) == rounds);
                assert(rg@.len() == rounds.len());
                let round = &rg[r];
                assert(round@ == rg@.map_values(|w: Vec<bool>| w@)[r as int]);
                assert(round@ == rounds[r as int]);
                let mut picked: usize = 0;
                let mut k: usize = 0;
                while k < entries.len()
                    invariant_except_break
                        k <= entries@.len(),
                        picked <= k,
                        round@.len() >= entries@.len(),
                        total == picks@ + round_picks(entries@, round@, limit, k as nat, picked as nat)
                            + rest_r + rest,
                    ensures
                        total == picks@ + rest_r + rest,
                    decreases entries@.len() - k,
                {
                    if limit > 0 && picked >= limit as usize {
                        assert(round_picks(entries@, round@, limit, k as nat, picked as nat) =~= Seq::<usize>::empty());
                        assert(picks@ + Seq::<usize>::empty() =~= picks@);
                        break;
                    }
                    let ghost before = picks@;
                    let ghost cur = round_picks(entries@, round@, limit, k as nat, picked as nat);
                    if round[k] {
                        let e = entries[k];
                        assert(cur == seq![e] + round_picks(entries@, round@, limit, k as nat + 1, picked as nat + 1));
                        picks.push(e);
                        picked = picked + 1;
                        assert(before + cur =~= picks@ + round_picks(entries@, round@, limit, k as nat + 1, picked as nat));
                    }
                    k = k + 1;
                }
                proof {
                    if k >= entries@.len() {
                    }
                }
                r = r + 1;
            }
            assert(group_picks(entries@, rounds, count as nat, limit, r as nat) =~= Seq::<usize>::empty());
            assert(total =~= picks@ + rest);
        } else {
            assert(total =~= picks@ + rest);
        }
        g = g + 1;
    }
    assert(total =~= picks@);
    picks
}

proof fn lemma_round_picks_bounded(entries: Seq<usize>, rolls: Seq<bool>, limit: i32, k: nat, picked: nat, n: nat)
    requires
        forall|e: int| 0 <= e < entries.len() ==> entries[e] < n,
    ensures
        forall|j: int|
            0 <= j < round_picks(entries, rolls, limit, k, picked).len() ==> round_picks(
                entries,
                rolls,
                limit,
                k,
                picked,
            )[j] < n,
    decreases entries.len() - k,
{
    if k < entries.len() && !(limit > 0 && picked >= limit) {
        lemma_round_picks_bounded(entries, rolls, limit, k + 1, picked + 1, n);
        lemma_round_picks_bounded(entries, rolls, limit, k + 1, picked, n);
        if rolls[k as int] {
            let rest = round_picks(entries, rolls, limit, k + 1, picked + 1);
            assert(round_picks(entries, rolls, limit, k, picked) == seq![entries[k as int]] + rest);
            assert forall|j: int| 0 <= j < (seq![entries[k as int]] + rest).len() implies (seq![
                entries[k as int],
            ] + rest)[j] < n by {
                if j > 0 {
                    assert((seq![entries[k as int]] + rest)[j] == rest[j - 1]);
                }
            }
        } else {
            assert(round_picks(entries, rolls, limit, k, picked) == round_picks(
                entries,
                rolls,
                limit,
                k + 1,
                picked,
            ));
        }
    }
}

proof fn lemma_group_picks_bounded(entries: Seq<usize>, rounds: Seq<Seq<bool>>, count: nat, limit: i32, r: nat, n: nat)
    requires
        forall|e: int| 0 <= e < entries.len() ==> entries[e] < n,
    ensures
        forall|j: int|
            0 <= j < group_picks(entries, rounds, count, limit, r).len() ==> group_picks(
                entries,
                rounds,
                count,
                limit,
                r,
            )[j] < n,
    decreases count - r,
{
    if r < count {
        lemma_round_picks_bounded(entries, rounds[r as int], limit, 0, 0, n);
        lemma_group_picks_bounded(entries, rounds, count, limit, r + 1, n);
        let a = round_picks(entries, rounds[r as int], limit, 0, 0);
        let b = group_picks(entries, rounds, count, limit, r + 1);
        assert forall|j: int| 0 <= j < (a + b).len() implies (a + b)[j] < n by {
            if j >= a.len() {
                assert((a + b)[j] == b[j - a.len()]);
            }
        }
    }
}

/// Whether `x` is an entry from `k` on whose item roll succeeded.
pub open spec fn won_entry(entries: Seq<usize>, rolls: Seq<bool>, k: int, x: usize) -> bool {
    exists|e: int| k <= e < entries.len() && rolls[e] && #[trigger] entries[e] == x
}

proof fn lemma_rolled_entries_won(entries: Seq<usize>, rolls: Seq<bool>, k: nat)
    ensures
        forall|j: int|
            0 <= j < rolled_entries(entries, rolls, k).len() ==> #[trigger] won_entry(
                entries,
                rolls,
                k as int,
                rolled_entries(entries, rolls, k)[j],
            ),
    decreases entries.len() - k,
{
    if k < entries.len() {
        lemma_rolled_entries_won(entries, rolls, (k + 1) as nat);
        let rest = rolled_entries(entries, rolls, (k + 1) as nat);
        let won = rolled_entries(entries, rolls, k);
        assert forall|j: int| 0 <= j < won.len() implies #[trigger] won_entry(entries, rolls, k as int, won[j]) by {
            if rolls[k as int] {
                assert(won == seq![entries[k as int]] + rest);
                if j == 0 {
                    assert(entries[k as int] == won[j]);
                } else {
                    assert(won[j] == rest[j - 1]);
                    assert(won_entry(entries, rolls, k as int + 1, rest[j - 1]));
                    let e = choose|e: int| k + 1 <= e < entries.len() && rolls[e] && #[trigger] entries[e] == rest[j - 1];
                    assert(entries[e] == won[j]);
                }
            } else {
                assert(won == rest);
                assert(won[j] == rest[j]);
                assert(won_entry(entries, rolls, k as int + 1, rest[j]));
                let e = choose|e: int| k + 1 <= e < entries.len() && rolls[e] && #[trigger] entries[e] == rest[j];
                assert(entries[e] == won[j]);
            }
        }
    }
}

/// Whether `x` is a candidate of a loot group from `g` on whose drop roll
/// succeeded.
pub open spec fn in_dropped_group(groups: Seq<Seq<usize>>, drops: Seq<bool>, g: int, x: usize) -> bool {
    exists|h: int, e: int| g <= h < groups.len() && drops[h] && 0 <= e < groups[h].len() && #[trigger] groups[h][e] == x
}

proof fn lemma_all_rolled(entries: Seq<usize>, rolls: Seq<bool>, k: nat)
    requires
        k <= entries.len(),
        forall|e: int| k <= e < entries.len() ==> #[trigger] rolls[e],
    ensures
        rolled_entries(entries, rolls, k) == entries.skip(k as int),
    decreases entries.len() - k,
{
    if k < entries.len() {
        lemma_all_rolled(entries, rolls, k + 1);
        assert(rolls[k as int]);
        assert(seq![entries[k as int]] + entries.skip(k as int + 1) =~= entries.skip(k as int));
    } else {
        assert(entries.skip(k as int) =~= Seq::<usize>::empty());
    }
}

/// Law: a group with no drop limit drops each of its entries once per
/// round when every item roll succeeds; a group whose drop roll succeeds
/// runs as many rounds as its first candidate's multiplier, and at least
/// one.
pub proof fn law_group_drops_every_round(
    rows: Seq<LootCandidateRow>,
    entries: Seq<usize>,
    rounds: Seq<Seq<bool>>,
    count: nat,
    limit: i32,
    r: nat,
)
    requires
        limit <= 0,
        r <= count,
        forall|q: int, e: int| r <= q < count && 0 <= e < entries.len() ==> #[trigger] rounds[q][e],
    ensures
        group_picks(entries, rounds, count, limit, r).len() == (count - r) * entries.len(),
        entries.len() > 0 ==> group_rounds(rows, entries) == if rows[entries[0] as int].group_multiplier >= 1 {
            rows[entries[0] as int].group_multiplier as int
        } else {
            1
        },
    decreases count - r,
{
    if r < count {
        assert forall|e: int| 0 <= e < entries.len() implies #[trigger] rounds[r as int][e] by {
            assert(rounds[r as int][e]);
        }
        lemma_all_rolled(entries, rounds[r as int], 0);
        law_round_respects_drop_limit(entries, rounds[r as int], limit);
        law_group_drops_every_round(rows, entries, rounds, count, limit, r + 1);
        assert((count - r) * entries.len() == entries.len() + (count - (r + 1)) * entries.len())
            by (nonlinear_arith);
    }
}

/// Whether `x` is one of `entries`.
pub open spec fn in_entries(entries: Seq<usize>, x: usize) -> bool {
    exists|e: int| 0 <= e < entries.len() && #[trigger] entries[e] == x
}

proof fn lemma_group_picks_won(entries: Seq<usize>, rounds: Seq<Seq<bool>>, count: nat, limit: i32, r: nat)
    ensures
        forall|j: int|
            0 <= j < group_picks(entries, rounds, count, limit, r).len() ==> #[trigger] in_entries(entries, group_picks(entries, rounds, count, limit, r)[j]),
    decreases count - r,
{
    if r < count {
        lemma_round_picks_capped(entries, rounds[r as int], limit, 0, 0);
        lemma_rolled_entries_won(entries, rounds[r as int], 0);
        lemma_group_picks_won(entries, rounds, count, limit, r + 1);
        let a = round_picks(entries, rounds[r as int], limit, 0, 0);
        let w = rolled_entries(entries, rounds[r as int], 0);
        let b = group_picks(entries, rounds, count, limit, r + 1);
        assert(group_picks(entries, rounds, count, limit, r) == a + b);
        assert forall|j: int| 0 <= j < (a + b).len() implies #[trigger] in_entries(entries, (a + b)[j]) by {
            if j >= a.len() {
                assert((a + b)[j] == b[j - a.len()]);
                assert(in_entries(entries, b[j - a.len()]));
            } else {
                assert(a[j] == w[j]);
                assert((a + b)[j] == a[j]);
                assert(won_entry(entries, rounds[r as int], 0, w[j]));
                let e = choose|e: int| 0 <= e < entries.len() && rounds[r as int][e] && #[trigger] entries[e] == w[j];
                assert(entries[e] == (a + b)[j]);
            }
        }
    }
}

/// Law: every candidate that drops belongs to a loot group whose drop
/// roll succeeded.
pub proof fn law_picks_come_from_dropped_groups(
    rows: Seq<LootCandidateRow>,
    groups: Seq<Seq<usize>>,
    drops: Seq<bool>,
    rolls: Seq<Seq<Seq<bool>>>,
    g: nat,
)
    ensures
        forall|j: int|
            0 <= j < loot_picks(rows, groups, drops, rolls, g).len() ==> #[trigger] in_dropped_group(
                groups,
                drops,
                g as int,
                loot_picks(rows, groups, drops, rolls, g)[j],
            ),
    decreases groups.len() - g,
{
    if g < groups.len() {
        law_picks_come_from_dropped_groups(rows, groups, drops, rolls, g + 1);
        let gr = groups[g as int];
        let a = if drops[g as int] {
            group_picks(gr, rolls[g as int], group_rounds(rows, gr), group_limit(rows, gr), 0)
        } else {
            Seq::empty()
        };
        let b = loot_picks(rows, groups, drops, rolls, g + 1);
        lemma_group_picks_won(gr, rolls[g as int], group_rounds(rows, gr), group_limit(rows, gr), 0);
        assert(loot_picks(rows, groups, drops, rolls, g) == a + b);
        assert forall|j: int| 0 <= j < (a + b).len() implies #[trigger] in_dropped_group(
            groups,
            drops,
            g as int,
            (a + b)[j],
        ) by {
            if j >= a.len() {
                assert((a + b)[j] == b[j - a.len()]);
                assert(in_dropped_group(groups, drops, g as int + 1, b[j - a.len()]));
                let (h, e) = choose|h: int, e: int|
                    g + 1 <= h < groups.len() && drops[h] && 0 <= e < groups[h].len() && #[trigger] groups[h][e]
                        == b[j - a.len()];
                assert(groups[h][e] == (a + b)[j]);
            } else {
                assert((a + b)[j] == a[j]);
                assert(in_entries(gr, a[j]));
                let e = choose|e: int| 0 <= e < gr.len() && #[trigger] gr[e] == a[j];
                assert(groups[g as int][e] == (a + b)[j]);
            }
        }
    }
}

proof fn lemma_loot_picks_bounded(
    rows: Seq<LootCandidateRow>,
    groups: Seq<Seq<usize>>,
    drops: Seq<bool>,
    rolls: Seq<Seq<Seq<bool>>>,
    g: nat,
)
    requires
        valid_groups(rows.len(), groups),
    ensures
        forall|j: int|
            0 <= j < loot_picks(rows, groups, drops, rolls, g).len() ==> loot_picks(
                rows,
                groups,
                drops,
                rolls,
                g,
            )[j] < rows.len(),
    decreases groups.len() - g,
{
    if g < groups.len() {
        assert(groups[g as int].len() > 0);
        lemma_group_picks_bounded(
            groups[g as int],
            rolls[g as int],
            group_rounds(rows, groups[g as int]),
            group_limit(rows, groups[g as int]),
            0,
            rows.len(),
        );
        lemma_loot_picks_bounded(rows, groups, drops, rolls, g + 1);
        let a = if drops[g as int] {
            group_picks(
                groups[g as int],
                rolls[g as int],
                group_rounds(rows, groups[g as int]),
                group_limit(rows, groups[g as int]),
                0,
            )
        } else {
            Seq::empty()
        };
        let b = loot_picks(rows, groups, drops, rolls, g + 1);
        assert forall|j: int| 0 <= j < (a + b).len() implies (a + b)[j] < rows.len() by {
            if j >= a.len() {
                assert((a + b)[j] == b[j - a.len()]);
            }
        }
    }
}

/// The least coin amount a loot table drops: its minimum, at least zero.
pub open spec fn cash_floor(mincash: i32) -> i32 {
    if mincash > 0 {
        mincash
    } else {
        0
    }
}

/// Whether `coins` are what a loot table with `money` (its minimum and
/// maximum in copper, if it has a row) can drop: nothing without a row or a
/// positive maximum, otherwise an amount from the floor to the maximum,
/// split into coins.
pub open spec fn valid_cash(money: Option<(i32, i32)>, coins: (u32, u32, u32, u32)) -> bool {
    match money {
        Some((mincash, maxcash)) => if maxcash > 0 {
            exists|total: i32|
                cash_floor(mincash) <= total <= maxcash && coins == #[trigger] money_split(total as u32)
        } else {
            coins == (0u32, 0u32, 0u32, 0u32)
        },
        None => coins == (0u32, 0u32, 0u32, 0u32),
    }
}

/// Rolls the coins a loot table drops.
pub fn roll_cash(money: Option<(i32, i32)>) -> (coins: (u32, u32, u32, u32))
    requires
        match money {
            Some((mincash, maxcash)) => maxcash > 0 ==> cash_floor(mincash) <= maxcash,
            None => true,
        },
    ensures
        valid_cash(money, coins),
{
    match money {
        Some((mincash, maxcash)) => {
            if maxcash > 0 {
                let lo = if mincash > 0 {
                    mincash
                } else {
                    0
                };
                let total = random_i32_inclusive(lo, maxcash);
                let coins = split_money(total as u32);
                assert(money_split(total as u32) == coins);
                coins
            } else {
                (0, 0, 0, 0)
            }
        },
        None => (0, 0, 0, 0),
    }
}

/// The items that drop: for each pick, in order, the candidate it names in
/// the next loot slot (slots count from 0).
pub open spec fn picked_items(
    items: Seq<InventoryItemRow>,
    rows: Seq<LootCandidateRow>,
    picks: Seq<usize>,
) -> bool {
    &&& items.len() == picks.len()
    &&& forall|k: int|
        0 <= k < picks.len() ==> is_candidate_item(#[trigger] items[k], rows[picks[k] as int], k as i32)
}

/// The loot of a slain NPC: the coins its loot table drops and the items
/// its candidates drop given the roll outcomes, each in its own loot slot.
pub fn resolve_npc_loot(
    rows: &Vec<LootCandidateRow>,
    groups: &Vec<Vec<usize>>,
    drops: &Vec<bool>,
    rolls: &Vec<Vec<Vec<bool>>>,
    money: Option<(i32, i32)>,
) -> (loot: (Vec<InventoryItemRow>, u32, u32, u32, u32))
    requires
        groups_view(groups@) == loot_groups(drop_ids(rows@)),
        rolls_cover(rows@, groups_view(groups@), drops@, rolls_view(rolls@)),
        match money {
            Some((mincash, maxcash)) => maxcash > 0 ==> cash_floor(mincash) <= maxcash,
            None => true,
        },
    ensures
        valid_cash(money, (loot.1, loot.2, loot.3, loot.4)),
        picked_items(
            loot.0@,
            rows@,
            loot_picks(rows@, groups_view(groups@), drops@, rolls_view(rolls@), 0),
        ),
        forall|j: int|
            0 <= j < loot_picks(rows@, groups_view(groups@), drops@, rolls_view(rolls@), 0).len()
                ==> #[trigger] loot_picks(rows@, groups_view(groups@), drops@, rolls_view(rolls@), 0)[j]
                < rows@.len(),
{
    let (plat, gold, silver, copper) = roll_cash(money);
    proof {
        lemma_loot_groups_valid(rows@);
    }
    let picks = select_loot(rows, groups, drops, rolls);
    proof {
        lemma_loot_picks_bounded(rows@, groups_view(groups@), drops@, rolls_view(rolls@), 0);
    }
    let mut items: Vec<InventoryItemRow> = Vec::new();
    let mut k: usize = 0;
    while k < picks.len()
        invariant
            k <= picks@.len(),
            valid_groups(rows@.len(), groups_view(groups@)),
            picks@ == loot_picks(rows@, groups_view(groups@), drops@, rolls_view(rolls@), 0),
            forall|j: int| 0 <= j < picks@.len() ==> picks@[j] < rows@.len(),
            items@.len() == k,
            forall|j: int|
                0 <= j < k ==> is_candidate_item(#[trigger] items@[j], rows@[picks@[j] as int], j as i32),
        decreases picks@.len() - k,
    {
        let item = item_from_candidate(&rows[picks[k]], k as i32);
        items.push(item);
        k = k + 1;
    }
    (items, plat, gold, silver, copper)
}

} // verus!
