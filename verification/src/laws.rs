//! Global properties of the enumeration engine, stated and proved over the
//! correlator's functional specification.
//!
//! Each proof function here is a law of the library: what holds of every
//! inventory the engine can return, not of one chosen input.

use vstd::prelude::*;

verus! {

use vstd::multiset::{group_multiset_axioms, Multiset};
use vstd::seq_lib::group_to_multiset_ensures;

use crate::catalog::{CatalogEntryView, RawValueView};
use crate::correlate::{
    add_device, correlate_rec, correlate_spec, find_card, lemma_find_card_props,
};
use crate::errors::HcaError;
use crate::portmap::{map_of, names_distinct, ports_for_name};
use crate::types::{ports_wf, IbDeviceView, IbPortView, PciDeviceView};

/// An empty device-manager catalog correlates to an empty inventory, not to
/// an error, whatever the port map holds.
pub proof fn lemma_empty_catalog(m: Map<Seq<char>, Seq<IbPortView>>)
    ensures
        correlate_spec(Seq::empty(), m) == Ok::<Seq<PciDeviceView>, HcaError>(
            Seq::<PciDeviceView>::empty(),
        ),
{
}

proof fn lemma_rec_result_status(
    entries: Seq<CatalogEntryView>,
    m1: Map<Seq<char>, Seq<IbPortView>>,
    m2: Map<Seq<char>, Seq<IbPortView>>,
    a1: Seq<PciDeviceView>,
    a2: Seq<PciDeviceView>,
)
    ensures
        (correlate_rec(entries, m1, a1) is Ok) == (correlate_rec(entries, m2, a2) is Ok),
        correlate_rec(entries, m1, a1) matches Err(e) ==> correlate_rec(entries, m2, a2) == Err::<
            Seq<PciDeviceView>,
            HcaError,
        >(e),
    decreases entries.len(),
{
    if entries.len() > 0 {
        let e = entries.first();
        match crate::catalog::pci_device_spec(e) {
            Err(_) => {},
            Ok(card) => match crate::catalog::ib_device_spec(e) {
                Err(_) => {},
                Ok(d0) => {
                    let dev1 = IbDeviceView {
                        name: d0.name,
                        slot_name: d0.slot_name,
                        node_guid: d0.node_guid,
                        node_desc: d0.node_desc,
                        sys_image_guid: d0.sys_image_guid,
                        fw_ver: d0.fw_ver,
                        board_id: d0.board_id,
                        ib_ports: ports_for_name(m1, d0.name),
                    };
                    let dev2 = IbDeviceView { ib_ports: ports_for_name(m2, d0.name), ..dev1 };
                    lemma_rec_result_status(
                        entries.drop_first(),
                        m1,
                        m2,
                        add_device(a1, card, dev1),
                        add_device(a2, card, dev2),
                    );
                },
            },
        }
    }
}

/// Whether correlation succeeds, and which error it fails with, depend on
/// the catalog alone: the port map can only change which ports the devices
/// carry. In particular, a host with catalog entries but no verbs-visible
/// devices still enumerates successfully.
pub proof fn lemma_success_depends_on_catalog(
    entries: Seq<CatalogEntryView>,
    m1: Map<Seq<char>, Seq<IbPortView>>,
    m2: Map<Seq<char>, Seq<IbPortView>>,
)
    ensures
        (correlate_spec(entries, m1) is Ok) == (correlate_spec(entries, m2) is Ok),
        correlate_spec(entries, m1) matches Err(e) ==> correlate_spec(entries, m2) == Err::<
            Seq<PciDeviceView>,
            HcaError,
        >(e),
{
    lemma_rec_result_status(entries, m1, m2, Seq::empty(), Seq::empty());
}

/// Every device of every card in the list satisfies `q` of its port list.
pub open spec fn cards_ports_satisfy(
    cards: Seq<PciDeviceView>,
    q: spec_fn(Seq<IbPortView>) -> bool,
) -> bool {
    forall|i: int, j: int|
        0 <= i < cards.len() && 0 <= j < cards[i].ib_devices.len() ==> q(
            (#[trigger] cards[i].ib_devices[j]).ib_ports,
        )
}

proof fn lemma_add_device_ports(
    cards: Seq<PciDeviceView>,
    card: PciDeviceView,
    dev: IbDeviceView,
    q: spec_fn(Seq<IbPortView>) -> bool,
)
    requires
        cards_ports_satisfy(cards, q),
        q(dev.ib_ports),
    ensures
        cards_ports_satisfy(add_device(cards, card, dev), q),
{
    lemma_find_card_props(cards, card.subsys_id);
    let i0 = find_card(cards, card.subsys_id);
    let cs2 = add_device(cards, card, dev);
    assert forall|i: int, j: int|
        0 <= i < cs2.len() && 0 <= j < cs2[i].ib_devices.len() implies q(
        (#[trigger] cs2[i].ib_devices[j]).ib_ports,
    ) by {
        if i0 == -1 {
            if i < cards.len() {
                assert(cs2[i] == cards[i]);
            } else {
                assert(cs2[i].ib_devices == seq![dev]);
                assert(cs2[i].ib_devices[j] == dev);
            }
        } else {
            if i != i0 {
                assert(cs2[i] == cards[i]);
            } else {
                if j < cards[i0].ib_devices.len() {
                    assert(cs2[i].ib_devices[j] == cards[i0].ib_devices[j]);
                } else {
                    assert(cs2[i].ib_devices[j] == dev);
                }
            }
        }
    }
}

proof fn lemma_rec_ports(
    entries: Seq<CatalogEntryView>,
    m: Map<Seq<char>, Seq<IbPortView>>,
    acc: Seq<PciDeviceView>,
    q: spec_fn(Seq<IbPortView>) -> bool,
)
    requires
        q(Seq::<IbPortView>::empty()),
        forall|n: Seq<char>| #[trigger] m.contains_key(n) ==> q(m[n]),
        cards_ports_satisfy(acc, q),
    ensures
        correlate_rec(entries, m, acc) matches Ok(cards) ==> cards_ports_satisfy(cards, q),
    decreases entries.len(),
{
    if entries.len() > 0 {
        let e = entries.first();
        match crate::catalog::pci_device_spec(e) {
            Err(_) => {},
            Ok(card) => match crate::catalog::ib_device_spec(e) {
                Err(_) => {},
                Ok(d0) => {
                    let dev = IbDeviceView {
                        name: d0.name,
                        slot_name: d0.slot_name,
                        node_guid: d0.node_guid,
                        node_desc: d0.node_desc,
                        sys_image_guid: d0.sys_image_guid,
                        fw_ver: d0.fw_ver,
                        board_id: d0.board_id,
                        ib_ports: ports_for_name(m, d0.name),
                    };
                    lemma_add_device_ports(acc, card, dev, q);
                    lemma_rec_ports(entries.drop_first(), m, add_device(acc, card, dev), q);
                },
            },
        }
    }
}

/// With an empty port map — catalog entries present but no verbs-visible
/// devices — every device of every returned card carries an empty port
/// list.
pub proof fn lemma_no_verbs_ports_empty(
    entries: Seq<CatalogEntryView>,
    m: Map<Seq<char>, Seq<IbPortView>>,
)
    requires
        m == Map::<Seq<char>, Seq<IbPortView>>::empty(),
    ensures
        correlate_spec(entries, m) matches Ok(cards) ==> cards_ports_satisfy(
            cards,
            (|ps: Seq<IbPortView>| ps.len() == 0),
        ),
{
    lemma_rec_ports(entries, m, Seq::empty(), (|ps: Seq<IbPortView>| ps.len() == 0));
}

/// When every port list of the port map is well-formed — as every list a
/// finished scan reports is — every device of every returned card carries a
/// well-formed port list: ports numbered 1 up to the reported count, the
/// global identifier present exactly on InfiniBand links.
pub proof fn lemma_inventory_ports_wf(
    entries: Seq<CatalogEntryView>,
    m: Map<Seq<char>, Seq<IbPortView>>,
)
    requires
        forall|n: Seq<char>| #[trigger] m.contains_key(n) ==> ports_wf(m[n]),
    ensures
        correlate_spec(entries, m) matches Ok(cards) ==> cards_ports_satisfy(
            cards,
            (|ps: Seq<IbPortView>| ports_wf(ps)),
        ),
{
    lemma_rec_ports(entries, m, Seq::empty(), (|ps: Seq<IbPortView>| ports_wf(ps)));
}

/// Two port scans of an unchanged host see the same devices, possibly
/// listed in another order; whichever order they came in, correlating the
/// same catalog against them yields the same inventory.
pub proof fn lemma_enumeration_repeatable(
    entries: Seq<CatalogEntryView>,
    e1: Seq<(Seq<char>, Seq<IbPortView>)>,
    e2: Seq<(Seq<char>, Seq<IbPortView>)>,
)
    requires
        names_distinct(e1),
        names_distinct(e2),
        e1.to_multiset() == e2.to_multiset(),
    ensures
        correlate_spec(entries, map_of(e1)) == correlate_spec(entries, map_of(e2)),
{
    crate::portmap::lemma_map_of_permutation(e1, e2);
}

/// No two cards in the list share a subsystem id.
pub open spec fn cards_distinct_ids(cards: Seq<PciDeviceView>) -> bool {
    forall|i: int, j: int|
        0 <= i < j < cards.len() ==> (#[trigger] cards[i]).subsys_id != (
        #[trigger] cards[j]).subsys_id
}

proof fn lemma_add_device_distinct(
    cards: Seq<PciDeviceView>,
    card: PciDeviceView,
    dev: IbDeviceView,
)
    requires
        cards_distinct_ids(cards),
    ensures
        cards_distinct_ids(add_device(cards, card, dev)),
{
    lemma_find_card_props(cards, card.subsys_id);
    let i0 = find_card(cards, card.subsys_id);
    let cs2 = add_device(cards, card, dev);
    assert forall|i: int, j: int| 0 <= i < j < cs2.len() implies (#[trigger] cs2[i]).subsys_id
        != (#[trigger] cs2[j]).subsys_id by {
        if i0 == -1 {
            assert(cs2[i] == cards[i]);
            if j < cards.len() {
                assert(cs2[j] == cards[j]);
            } else {
                assert(cs2[j].subsys_id == card.subsys_id);
            }
        } else {
            assert(cs2[i].subsys_id == cards[i].subsys_id);
            assert(cs2[j].subsys_id == cards[j].subsys_id);
        }
    }
}

proof fn lemma_rec_distinct(
    entries: Seq<CatalogEntryView>,
    m: Map<Seq<char>, Seq<IbPortView>>,
    acc: Seq<PciDeviceView>,
)
    requires
        cards_distinct_ids(acc),
    ensures
        correlate_rec(entries, m, acc) matches Ok(cards) ==> cards_distinct_ids(cards),
    decreases entries.len(),
{
    if entries.len() > 0 {
        let e = entries.first();
        match crate::catalog::pci_device_spec(e) {
            Err(_) => {},
            Ok(card) => match crate::catalog::ib_device_spec(e) {
                Err(_) => {},
                Ok(d0) => {
                    let dev = IbDeviceView {
                        name: d0.name,
                        slot_name: d0.slot_name,
                        node_guid: d0.node_guid,
                        node_desc: d0.node_desc,
                        sys_image_guid: d0.sys_image_guid,
                        fw_ver: d0.fw_ver,
                        board_id: d0.board_id,
                        ib_ports: ports_for_name(m, d0.name),
                    };
                    lemma_add_device_distinct(acc, card, dev);
                    lemma_rec_distinct(entries.drop_first(), m, add_device(acc, card, dev));
                },
            },
        }
    }
}

/// A successful correlation returns exactly one card per distinct
/// subsystem id: no two cards of the inventory share one.
pub proof fn lemma_one_card_per_subsystem(
    entries: Seq<CatalogEntryView>,
    m: Map<Seq<char>, Seq<IbPortView>>,
)
    ensures
        correlate_spec(entries, m) matches Ok(cards) ==> cards_distinct_ids(cards),
{
    lemma_rec_distinct(entries, m, Seq::empty());
}

/// The names of the devices of one card, as a multiset.
pub open spec fn card_names_ms(c: PciDeviceView) -> Multiset<Seq<char>> {
    c.ib_devices.map_values(|d: IbDeviceView| d.name).to_multiset()
}

/// The names of all devices across all cards, as a multiset.
pub open spec fn cards_names_ms(cards: Seq<PciDeviceView>) -> Multiset<Seq<char>>
    decreases cards.len(),
{
    if cards.len() == 0 {
        Multiset::empty()
    } else {
        cards_names_ms(cards.drop_last()).add(card_names_ms(cards.last()))
    }
}

/// The device name a catalog entry carries, when it carries text.
pub open spec fn entry_display_name(e: CatalogEntryView) -> Seq<char> {
    match e.name {
        RawValueView::Text(s) => s,
        _ => Seq::empty(),
    }
}

/// The names the catalog contributes to the inventory: one per record.
pub open spec fn entry_names_ms(entries: Seq<CatalogEntryView>) -> Multiset<Seq<char>>
    decreases entries.len(),
{
    if entries.len() == 0 {
        Multiset::empty()
    } else {
        entry_names_ms(entries.drop_first()).insert(entry_display_name(entries.first()))
    }
}

proof fn lemma_empty_seq_to_multiset(s: Seq<Seq<char>>)
    requires
        s.len() == 0,
    ensures
        s.to_multiset() == Multiset::<Seq<char>>::empty(),
{
    broadcast use group_to_multiset_ensures;
    broadcast use group_multiset_axioms;

    assert(s.to_multiset() =~= Multiset::<Seq<char>>::empty());
}

proof fn lemma_singleton_names_ms(dev: IbDeviceView)
    ensures
        seq![dev].map_values(|d: IbDeviceView| d.name).to_multiset() == Multiset::<
            Seq<char>,
        >::empty().insert(dev.name),
{
    broadcast use group_to_multiset_ensures;
    broadcast use group_multiset_axioms;

    let f = |d: IbDeviceView| d.name;
    assert(seq![dev].map_values(f) =~= Seq::<Seq<char>>::empty().push(dev.name));
    lemma_empty_seq_to_multiset(Seq::<Seq<char>>::empty());
    assert(Seq::<Seq<char>>::empty().push(dev.name).to_multiset() =~= Seq::<
        Seq<char>,
    >::empty().to_multiset().insert(dev.name));
}

proof fn lemma_cards_ms_update(cards: Seq<PciDeviceView>, i: int, c2: PciDeviceView, n: Seq<char>)
    requires
        0 <= i < cards.len(),
        card_names_ms(c2) == card_names_ms(cards[i]).insert(n),
    ensures
        cards_names_ms(cards.update(i, c2)) == cards_names_ms(cards).insert(n),
    decreases cards.len(),
{
    broadcast use group_multiset_axioms;

    let cs2 = cards.update(i, c2);
    if i == cards.len() - 1 {
        assert(cs2.drop_last() =~= cards.drop_last());
        assert(cs2.last() == c2);
        assert(cards_names_ms(cards.drop_last()).add(card_names_ms(cards.last()).insert(n))
            =~= cards_names_ms(cards.drop_last()).add(card_names_ms(cards.last())).insert(n));
    } else {
        assert(cs2.drop_last() =~= cards.drop_last().update(i, c2));
        assert(cards.drop_last()[i] == cards[i]);
        lemma_cards_ms_update(cards.drop_last(), i, c2, n);
        assert(cs2.last() == cards.last());
        assert(cards_names_ms(cards.drop_last()).insert(n).add(card_names_ms(cards.last()))
            =~= cards_names_ms(cards.drop_last()).add(card_names_ms(cards.last())).insert(n));
    }
}

proof fn lemma_add_device_names(cards: Seq<PciDeviceView>, card: PciDeviceView, dev: IbDeviceView)
    ensures
        cards_names_ms(add_device(cards, card, dev)) == cards_names_ms(cards).insert(dev.name),
{
    broadcast use group_to_multiset_ensures;
    broadcast use group_multiset_axioms;

    lemma_find_card_props(cards, card.subsys_id);
    let i0 = find_card(cards, card.subsys_id);
    let cs2 = add_device(cards, card, dev);
    let f = |d: IbDeviceView| d.name;
    if i0 == -1 {
        assert(cs2.drop_last() =~= cards);
        lemma_singleton_names_ms(dev);
        assert(card_names_ms(cs2.last()) == Multiset::<Seq<char>>::empty().insert(dev.name));
        assert(cards_names_ms(cards).add(Multiset::<Seq<char>>::empty().insert(dev.name))
            =~= cards_names_ms(cards).insert(dev.name));
    } else {
        let c = cards[i0];
        let c2 = cs2[i0];
        assert(c2.ib_devices == c.ib_devices.push(dev));
        assert(c.ib_devices.push(dev).map_values(f) =~= c.ib_devices.map_values(f).push(dev.name));
        assert(c.ib_devices.map_values(f).push(dev.name).to_multiset() =~= c.ib_devices.map_values(
            f,
        ).to_multiset().insert(dev.name));
        assert(card_names_ms(c2) == card_names_ms(c).insert(dev.name));
        lemma_cards_ms_update(cards, i0, c2, dev.name);
        assert(cs2 =~= cards.update(i0, c2));
    }
}

proof fn lemma_rec_names(
    entries: Seq<CatalogEntryView>,
    m: Map<Seq<char>, Seq<IbPortView>>,
    acc: Seq<PciDeviceView>,
)
    ensures
        correlate_rec(entries, m, acc) matches Ok(cards) ==> cards_names_ms(cards)
            == cards_names_ms(acc).add(entry_names_ms(entries)),
    decreases entries.len(),
{
    broadcast use group_multiset_axioms;

    if entries.len() == 0 {
        assert(cards_names_ms(acc).add(Multiset::<Seq<char>>::empty()) =~= cards_names_ms(acc));
    } else {
        let e = entries.first();
        match crate::catalog::pci_device_spec(e) {
            Err(_) => {},
            Ok(card) => match crate::catalog::ib_device_spec(e) {
                Err(_) => {},
                Ok(d0) => {
                    let dev = IbDeviceView {
                        name: d0.name,
                        slot_name: d0.slot_name,
                        node_guid: d0.node_guid,
                        node_desc: d0.node_desc,
                        sys_image_guid: d0.sys_image_guid,
                        fw_ver: d0.fw_ver,
                        board_id: d0.board_id,
                        ib_ports: ports_for_name(m, d0.name),
                    };
                    assert(dev.name == entry_display_name(e));
                    let acc2 = add_device(acc, card, dev);
                    lemma_add_device_names(acc, card, dev);
                    lemma_rec_names(entries.drop_first(), m, acc2);
                    match correlate_rec(entries, m, acc) {
                        Ok(_) => {
                            assert(cards_names_ms(acc).insert(dev.name).add(
                                entry_names_ms(entries.drop_first()),
                            ) =~= cards_names_ms(acc).add(
                                entry_names_ms(entries.drop_first()).insert(dev.name),
                            ));
                        },
                        Err(_) => {},
                    }
                },
            },
        }
    }
}

proof fn lemma_entry_names_count_zero(entries: Seq<CatalogEntryView>, n: Seq<char>)
    requires
        forall|i: int| 0 <= i < entries.len() ==> entry_display_name(#[trigger] entries[i]) != n,
    ensures
        entry_names_ms(entries).count(n) == 0,
    decreases entries.len(),
{
    broadcast use group_multiset_axioms;

    if entries.len() > 0 {
        assert forall|i: int|
            0 <= i < entries.drop_first().len() implies entry_display_name(
            #[trigger] entries.drop_first()[i]) != n by {
            assert(entries.drop_first()[i] == entries[i + 1]);
        }
        lemma_entry_names_count_zero(entries.drop_first(), n);
        assert(entry_display_name(entries[0]) != n);
    }
}

proof fn lemma_entry_names_unique(entries: Seq<CatalogEntryView>)
    requires
        forall|i: int, j: int|
            0 <= i < j < entries.len() ==> entry_display_name(#[trigger] entries[i])
                != entry_display_name(#[trigger] entries[j]),
    ensures
        forall|n: Seq<char>| #[trigger] entry_names_ms(entries).count(n) <= 1,
    decreases entries.len(),
{
    broadcast use group_multiset_axioms;

    if entries.len() > 0 {
        let rest = entries.drop_first();
        assert forall|i: int, j: int|
            0 <= i < j < rest.len() implies entry_display_name(#[trigger] rest[i])
            != entry_display_name(#[trigger] rest[j]) by {
            assert(rest[i] == entries[i + 1]);
            assert(rest[j] == entries[j + 1]);
        }
        lemma_entry_names_unique(rest);
        assert forall|n: Seq<char>| #[trigger] entry_names_ms(entries).count(n) <= 1 by {
            assert(entry_names_ms(rest).count(n) <= 1);
            let n0 = entry_display_name(entries[0]);
            assert(entry_names_ms(entries) == entry_names_ms(rest).insert(n0));
            if n == n0 {
                assert forall|i: int|
                    0 <= i < rest.len() implies entry_display_name(#[trigger] rest[i]) != n by {
                    assert(rest[i] == entries[i + 1]);
                }
                lemma_entry_names_count_zero(rest, n);
                assert(entry_names_ms(entries).count(n) == entry_names_ms(rest).count(n0) + 1);
            } else {
                assert(entry_names_ms(entries).count(n) == entry_names_ms(rest).count(n));
            }
        }
    }
}

/// Across the whole inventory a successful correlation returns, every
/// device name occurs at most once, provided the catalog records carried
/// pairwise distinct names — as the kernel's device catalog does.
pub proof fn lemma_device_names_unique(
    entries: Seq<CatalogEntryView>,
    m: Map<Seq<char>, Seq<IbPortView>>,
)
    requires
        forall|i: int, j: int|
            0 <= i < j < entries.len() ==> entry_display_name(#[trigger] entries[i])
                != entry_display_name(#[trigger] entries[j]),
    ensures
        correlate_spec(entries, m) matches Ok(cards) ==> forall|n: Seq<char>| #[trigger]
            cards_names_ms(cards).count(n) <= 1,
{
    broadcast use group_multiset_axioms;

    lemma_rec_names(entries, m, Seq::empty());
    lemma_entry_names_unique(entries);
    match correlate_spec(entries, m) {
        Ok(cards) => {
            assert(cards_names_ms(Seq::empty()) == Multiset::<Seq<char>>::empty());
            assert(cards_names_ms(cards) =~= entry_names_ms(entries));
        },
        Err(_) => {},
    }
}

proof fn lemma_two_occurrences_in_seq(s: Seq<Seq<char>>, j1: int, j2: int)
    requires
        0 <= j1 < s.len(),
        0 <= j2 < s.len(),
        j1 != j2,
        s[j1] == s[j2],
    ensures
        s.to_multiset().count(s[j1]) >= 2,
{
    broadcast use group_to_multiset_ensures;
    broadcast use group_multiset_axioms;

    let n = s[j1];
    let s2 = s.remove(j1);
    s.remove_ensures(j1);
    assert(s.remove(j1).to_multiset() =~= s.to_multiset().remove(n));
    if j2 < j1 {
        assert(s2[j2] == s[j2]);
    } else {
        assert(s2[j2 - 1] == s[j2]);
    }
    assert(s2.contains(n));
    assert(s2.to_multiset().count(n) > 0);
    assert(s.contains(n));
    assert(s.to_multiset().count(n) > 0);
    assert(s2.to_multiset().count(n) == s.to_multiset().count(n) - 1);
}

proof fn lemma_card_count_at(c: PciDeviceView, j: int)
    requires
        0 <= j < c.ib_devices.len(),
    ensures
        card_names_ms(c).count(c.ib_devices[j].name) >= 1,
{
    broadcast use group_to_multiset_ensures;
    broadcast use group_multiset_axioms;

    let f = |d: IbDeviceView| d.name;
    let s = c.ib_devices.map_values(f);
    assert(s[j] == c.ib_devices[j].name);
    assert(s.contains(s[j]));
    assert(s.to_multiset().count(s[j]) > 0);
}

proof fn lemma_card_count_two(c: PciDeviceView, j1: int, j2: int)
    requires
        0 <= j1 < c.ib_devices.len(),
        0 <= j2 < c.ib_devices.len(),
        j1 != j2,
        c.ib_devices[j1].name == c.ib_devices[j2].name,
    ensures
        card_names_ms(c).count(c.ib_devices[j1].name) >= 2,
{
    let f = |d: IbDeviceView| d.name;
    let s = c.ib_devices.map_values(f);
    assert(s[j1] == c.ib_devices[j1].name);
    assert(s[j2] == c.ib_devices[j2].name);
    lemma_two_occurrences_in_seq(s, j1, j2);
}

proof fn lemma_cards_count_from_card(cards: Seq<PciDeviceView>, i: int, n: Seq<char>)
    requires
        0 <= i < cards.len(),
    ensures
        cards_names_ms(cards).count(n) >= card_names_ms(cards[i]).count(n),
    decreases cards.len(),
{
    broadcast use group_multiset_axioms;

    if i == cards.len() - 1 {
    } else {
        lemma_cards_count_from_card(cards.drop_last(), i, n);
        assert(cards.drop_last()[i] == cards[i]);
    }
}

proof fn lemma_cards_count_from_two_cards(
    cards: Seq<PciDeviceView>,
    i1: int,
    i2: int,
    n: Seq<char>,
)
    requires
        0 <= i1 < i2 < cards.len(),
    ensures
        cards_names_ms(cards).count(n) >= card_names_ms(cards[i1]).count(n) + card_names_ms(
            cards[i2],
        ).count(n),
    decreases cards.len(),
{
    broadcast use group_multiset_axioms;

    if i2 == cards.len() - 1 {
        lemma_cards_count_from_card(cards.drop_last(), i1, n);
        assert(cards.drop_last()[i1] == cards[i1]);
    } else {
        lemma_cards_count_from_two_cards(cards.drop_last(), i1, i2, n);
        assert(cards.drop_last()[i1] == cards[i1]);
        assert(cards.drop_last()[i2] == cards[i2]);
    }
}

/// No device name repeats anywhere in the inventory: any two distinct
/// device positions, in the same card or in different cards, carry
/// different names.
pub open spec fn inventory_names_unique(cards: Seq<PciDeviceView>) -> bool {
    forall|i1: int, j1: int, i2: int, j2: int|
        0 <= i1 < cards.len() && 0 <= j1 < cards[i1].ib_devices.len() && 0 <= i2 < cards.len() && 0
            <= j2 < cards[i2].ib_devices.len() && !(i1 == i2 && j1 == j2) ==> (
        #[trigger] cards[i1].ib_devices[j1]).name != (#[trigger] cards[i2].ib_devices[j2]).name
}

/// Pointwise form of device-name uniqueness: on a successful correlation
/// of a catalog whose records carry pairwise distinct names, no two
/// distinct devices of the inventory share a name.
pub proof fn lemma_device_names_unique_pointwise(
    entries: Seq<CatalogEntryView>,
    m: Map<Seq<char>, Seq<IbPortView>>,
)
    requires
        forall|i: int, j: int|
            0 <= i < j < entries.len() ==> entry_display_name(#[trigger] entries[i])
                != entry_display_name(#[trigger] entries[j]),
    ensures
        correlate_spec(entries, m) matches Ok(cards) ==> inventory_names_unique(cards),
{
    lemma_device_names_unique(entries, m);
    match correlate_spec(entries, m) {
        Ok(cards) => {
            assert forall|i1: int, j1: int, i2: int, j2: int|
                0 <= i1 < cards.len() && 0 <= j1 < cards[i1].ib_devices.len() && 0 <= i2
                    < cards.len() && 0 <= j2 < cards[i2].ib_devices.len() && !(i1 == i2 && j1
                    == j2) implies (#[trigger] cards[i1].ib_devices[j1]).name != (
            #[trigger] cards[i2].ib_devices[j2]).name by {
                if cards[i1].ib_devices[j1].name == cards[i2].ib_devices[j2].name {
                    let n = cards[i1].ib_devices[j1].name;
                    if i1 == i2 {
                        lemma_card_count_two(cards[i1], j1, j2);
                        lemma_cards_count_from_card(cards, i1, n);
                    } else if i1 < i2 {
                        lemma_card_count_at(cards[i1], j1);
                        lemma_card_count_at(cards[i2], j2);
                        lemma_cards_count_from_two_cards(cards, i1, i2, n);
                    } else {
                        lemma_card_count_at(cards[i1], j1);
                        lemma_card_count_at(cards[i2], j2);
                        lemma_cards_count_from_two_cards(cards, i2, i1, n);
                    }
                    assert(cards_names_ms(cards).count(n) >= 2);
                    assert(cards_names_ms(cards).count(n) <= 1);
                }
            }
        },
        Err(_) => {},
    }
}

/// The join loses nothing and invents nothing: across a successful
/// inventory, the device names are exactly the catalog records' names,
/// one device per record.
pub proof fn lemma_inventory_names_complete(
    entries: Seq<CatalogEntryView>,
    m: Map<Seq<char>, Seq<IbPortView>>,
)
    ensures
        correlate_spec(entries, m) matches Ok(cards) ==> cards_names_ms(cards) == entry_names_ms(
            entries,
        ),
{
    broadcast use group_multiset_axioms;

    lemma_rec_names(entries, m, Seq::empty());
    match correlate_spec(entries, m) {
        Ok(cards) => {
            assert(cards_names_ms(Seq::empty()) == Multiset::<Seq<char>>::empty());
            assert(cards_names_ms(cards) =~= entry_names_ms(entries));
        },
        Err(_) => {},
    }
}

} // verus!
