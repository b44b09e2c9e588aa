//! The inventory correlator: joins the device-manager catalog with the
//! verbs-derived port map into the final nested topology.
//!
//! Every catalog record becomes a logical device; its ports are attached
//! by name, a miss yielding an empty list. Devices are grouped into one
//! physical card per distinct subsystem id, the card's firmware and board
//! id taking the values of the most recently grouped device. The first
//! fatal error aborts the whole pass.

use vstd::prelude::*;

verus! {

use crate::catalog::{ib_device_spec, pci_device_spec, CatalogEntry, CatalogEntryView};
use crate::errors::HcaError;
use crate::portmap::{ports_for_name, PortMap};
use crate::types::{IbDevice, IbDeviceView, IbPortView, PciDevice, PciDeviceView};

/// Index of the first card with the given subsystem id, or -1 when no card
/// has it.
pub open spec fn find_card(cards: Seq<PciDeviceView>, subsys: Seq<char>) -> int
    decreases cards.len(),
{
    if cards.len() == 0 {
        -1
    } else if cards.first().subsys_id == subsys {
        0
    } else {
        let r = find_card(cards.drop_first(), subsys);
        if r == -1 {
            -1
        } else {
            r + 1
        }
    }
}

/// The card list after one device is grouped into it. An unseen subsystem
/// id opens a new card; in either case the card's firmware and board id
/// take the device's values, so the most recently grouped device wins.
pub open spec fn add_device(
    cards: Seq<PciDeviceView>,
    card: PciDeviceView,
    dev: IbDeviceView,
) -> Seq<PciDeviceView> {
    let i = find_card(cards, card.subsys_id);
    if i == -1 {
        cards.push(
            PciDeviceView {
                subsys_id: card.subsys_id,
                model_name: card.model_name,
                vendor_name: card.vendor_name,
                vendor: card.vendor,
                board_id: dev.board_id,
                fw_ver: dev.fw_ver,
                ib_devices: seq![dev],
            },
        )
    } else {
        let c = cards[i];
        cards.update(
            i,
            PciDeviceView {
                subsys_id: c.subsys_id,
                model_name: c.model_name,
                vendor_name: c.vendor_name,
                vendor: c.vendor,
                board_id: dev.board_id,
                fw_ver: dev.fw_ver,
                ib_devices: c.ib_devices.push(dev),
            },
        )
    }
}

/// One correlation pass over the remaining catalog entries, starting from
/// the cards already grouped. Every record yields a device; the first
/// error aborts the pass.
pub open spec fn correlate_rec(
    entries: Seq<CatalogEntryView>,
    m: Map<Seq<char>, Seq<IbPortView>>,
    cards: Seq<PciDeviceView>,
) -> Result<Seq<PciDeviceView>, HcaError>
    decreases entries.len(),
{
    if entries.len() == 0 {
        Ok(cards)
    } else {
        let e = entries.first();
        match pci_device_spec(e) {
            Err(er) => Err(er),
            Ok(card) => match ib_device_spec(e) {
                Err(er) => Err(er),
                Ok(d0) => {
                    let dev = IbDeviceView {
                        name: d0.name,
                        slot_name: d0.slot_name,
                        node_guid: d0.node_guid,
                        node_desc: d0.node_desc,
                        sys_image_guid: d0.sys_image_guid,
                        fw_ver: d0.fw_ver,
                        board_id: d0.board_id,
                        ib_ports: ports_for_name(m, d0.name),
                    };
                    correlate_rec(entries.drop_first(), m, add_device(cards, card, dev))
                },
            },
        }
    }
}

/// The inventory a catalog and a port map correlate to.
pub open spec fn correlate_spec(
    entries: Seq<CatalogEntryView>,
    m: Map<Seq<char>, Seq<IbPortView>>,
) -> Result<Seq<PciDeviceView>, HcaError> {
    correlate_rec(entries, m, Seq::empty())
}

proof fn lemma_find_card_at(cards: Seq<PciDeviceView>, subsys: Seq<char>, i: int)
    requires
        0 <= i < cards.len(),
        cards[i].subsys_id == subsys,
        forall|k: int| 0 <= k < i ==> (#[trigger] cards[k]).subsys_id != subsys,
    ensures
        find_card(cards, subsys) == i,
    decreases i,
{
    if i == 0 {
    } else {
        assert(cards[0].subsys_id != subsys);
        assert forall|k: int| 0 <= k < i - 1 implies (#[trigger] cards.drop_first()[
            k
        ]).subsys_id != subsys by {
            assert(cards.drop_first()[k] == cards[k + 1]);
        }
        assert(cards.drop_first()[i - 1] == cards[i]);
        lemma_find_card_at(cards.drop_first(), subsys, i - 1);
    }
}

proof fn lemma_find_card_none(cards: Seq<PciDeviceView>, subsys: Seq<char>)
    requires
        forall|k: int| 0 <= k < cards.len() ==> (#[trigger] cards[k]).subsys_id != subsys,
    ensures
        find_card(cards, subsys) == -1,
    decreases cards.len(),
{
    if cards.len() > 0 {
        assert forall|k: int| 0 <= k < cards.drop_first().len() implies (
        #[trigger] cards.drop_first()[k]).subsys_id != subsys by {
            assert(cards.drop_first()[k] == cards[k + 1]);
        }
        lemma_find_card_none(cards.drop_first(), subsys);
    }
}

/// What a `find_card` answer means: -1 says no card holds the id, and any
/// other answer is the position of the first card that does.
pub proof fn lemma_find_card_props(cards: Seq<PciDeviceView>, subsys: Seq<char>)
    ensures
        find_card(cards, subsys) == -1 ==> (forall|k: int|
            0 <= k < cards.len() ==> (#[trigger] cards[k]).subsys_id != subsys),
        find_card(cards, subsys) != -1 ==> {
            &&& 0 <= find_card(cards, subsys) < cards.len()
            &&& cards[find_card(cards, subsys)].subsys_id == subsys
            &&& forall|k: int|
                0 <= k < find_card(cards, subsys) ==> (#[trigger] cards[k]).subsys_id != subsys
        },
    decreases cards.len(),
{
    if cards.len() > 0 {
        lemma_find_card_props(cards.drop_first(), subsys);
        let r = find_card(cards.drop_first(), subsys);
        assert(forall|k: int|
            0 <= k < cards.drop_first().len() ==> #[trigger] cards.drop_first()[k] == cards[k + 1]);
        if cards.first().subsys_id == subsys {
        } else if r == -1 {
            assert forall|k: int| 0 <= k < cards.len() implies (#[trigger] cards[k]).subsys_id
                != subsys by {
                if k > 0 {
                    assert(cards.drop_first()[k - 1] == cards[k]);
                }
            }
        } else {
            assert forall|k: int| 0 <= k < r + 1 implies (#[trigger] cards[k]).subsys_id
                != subsys by {
                if k > 0 {
                    assert(cards.drop_first()[k - 1] == cards[k]);
                }
            }
        }
    }
}

/// Index of the first card with the given subsystem id, if any.
fn find_card_index(cards: &Vec<PciDevice>, subsys: &String) -> (r: Option<usize>)
    ensures
        match r {
            Some(i) => find_card(cards.deep_view(), subsys@) == i as int && (i as int)
                < cards.deep_view().len(),
            None => find_card(cards.deep_view(), subsys@) == -1,
        },
{
    let n = cards.len();
    let mut i: usize = 0;
    while i < n
        invariant
            n == cards.deep_view().len(),
            i <= n,
            forall|k: int| 0 <= k < i ==> (#[trigger] cards.deep_view()[k]).subsys_id != subsys@,
        decreases n - i,
    {
        if cards[i].subsys_id == *subsys {
            proof {
                lemma_find_card_at(cards.deep_view(), subsys@, i as int);
            }
            return Some(i);
        }
        i += 1;
    }
    proof {
        lemma_find_card_none(cards.deep_view(), subsys@);
    }
    None
}

/// Correlate the catalog records with the verbs-derived port map into the
/// final inventory: one card per distinct subsystem id, each owning its
/// devices in catalog order, each device owning the port list recorded
/// under its name (empty when the name is not verbs-visible). Returns the
/// first fatal error instead when any record fails to build.
pub fn list_pci_devices(catalog: &Vec<CatalogEntry>, ports: &PortMap) -> (r: Result<
    Vec<PciDevice>,
    HcaError,
>)
    ensures
        match r {
            Ok(cards) => correlate_spec(catalog.deep_view(), ports@) == Ok::<
                Seq<PciDeviceView>,
                HcaError,
            >(cards.deep_view()),
            Err(e) => correlate_spec(catalog.deep_view(), ports@) == Err::<
                Seq<PciDeviceView>,
                HcaError,
            >(e),
        },
{
    let ghost cv = catalog.deep_view();
    let ghost m = ports@;
    let mut cards: Vec<PciDevice> = Vec::new();
    let n = catalog.len();
    let mut i: usize = 0;
    proof {
        assert(cv.skip(0) =~= cv);
        assert(cards.deep_view() =~= Seq::<PciDeviceView>::empty());
    }
    while i < n
        invariant
            n == catalog.deep_view().len(),
            i <= n,
            cv == catalog.deep_view(),
            m == ports@,
            correlate_rec(cv.skip(i as int), m, cards.deep_view()) == correlate_spec(cv, m),
        decreases n - i,
    {
        let entry = &catalog[i];
        let ghost rest = cv.skip(i as int);
        proof {
            assert(rest[0] == cv[i as int]);
            assert(rest.drop_first() =~= cv.skip(i as int + 1));
        }
        let card = match PciDevice::try_from(entry) {
            Ok(c) => c,
            Err(e) => {
                return Err(e);
            },
        };
        let mut dev = match IbDevice::try_from(entry) {
            Ok(d) => d,
            Err(e) => {
                return Err(e);
            },
        };
        let ghost d0v = dev.deep_view();
        dev.ib_ports = ports.ports_for(&dev.name);
        let ghost devv = dev.deep_view();
        proof {
            assert(devv =~= (IbDeviceView {
                name: d0v.name,
                slot_name: d0v.slot_name,
                node_guid: d0v.node_guid,
                node_desc: d0v.node_desc,
                sys_image_guid: d0v.sys_image_guid,
                fw_ver: d0v.fw_ver,
                board_id: d0v.board_id,
                ib_ports: ports_for_name(m, d0v.name),
            }));
        }
        let ghost a0 = cards.deep_view();
        match find_card_index(&cards, &card.subsys_id) {
            None => {
                let board_id = dev.board_id.clone();
                let fw_ver = dev.fw_ver.clone();
                let mut devs: Vec<IbDevice> = Vec::new();
                devs.push(dev);
                let newc = PciDevice {
                    subsys_id: card.subsys_id,
                    model_name: card.model_name,
                    vendor_name: card.vendor_name,
                    vendor: card.vendor,
                    board_id,
                    fw_ver,
                    ib_devices: devs,
                };
                cards.push(newc);
                proof {
                    assert(newc.ib_devices.deep_view() =~= seq![devv]);
                    assert(cards.deep_view() =~= add_device(a0, card.deep_view(), devv));
                }
            },
            Some(j) => {
                cards[j].fw_ver = dev.fw_ver.clone();
                cards[j].board_id = dev.board_id.clone();
                cards[j].ib_devices.push(dev);
                proof {
                    assert forall|k: int|
                        0 <= k < cards.deep_view().len() && k != j as int implies
                        cards.deep_view()[k] == a0[k] by {}
                    assert(cards.deep_view()[j as int].ib_devices =~= a0[
                        j as int
                    ].ib_devices.push(devv));
                    assert(cards.deep_view() =~= add_device(a0, card.deep_view(), devv));
                }
            },
        }
        i += 1;
    }
    proof {
        assert(cv.skip(n as int) =~= Seq::<CatalogEntryView>::empty());
    }
    Ok(cards)
}

} // verus!
