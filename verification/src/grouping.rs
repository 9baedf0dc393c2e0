//! Grouping hidraw records into physical devices, and finding a device again.
use vstd::prelude::*;

use crate::device::{
    devices_view, records_view, resolve_id, spec_resolve_id, strings_view, Device, DeviceView,
    RawHidrawRecord, RecordView,
};

verus! {

/// The device that a first record of identity `id` starts.
pub open spec fn new_device_view(id: Seq<char>, r: RecordView) -> DeviceView {
    DeviceView {
        id: id,
        vendor: r.vendor,
        product: r.product,
        product_name: r.product_name,
        hidraw_nodes: seq![r.devnode],
    }
}

/// Whether some device in `devs` has identity `id`.
pub open spec fn has_id(devs: Seq<DeviceView>, id: Seq<char>) -> bool {
    exists|i: int| 0 <= i < devs.len() && #[trigger] devs[i].id == id
}

/// One record added to the devices found so far: its node joins the device of
/// the same identity, or it starts a new device at the end.
pub open spec fn add_record(devs: Seq<DeviceView>, r: RecordView) -> Seq<DeviceView> {
    let id = spec_resolve_id(r);
    if has_id(devs, id) {
        let i = choose|i: int| 0 <= i < devs.len() && #[trigger] devs[i].id == id;
        devs.update(
            i,
            DeviceView {
                id: devs[i].id,
                vendor: devs[i].vendor,
                product: devs[i].product,
                product_name: devs[i].product_name,
                hidraw_nodes: devs[i].hidraw_nodes.push(r.devnode),
            },
        )
    } else {
        devs.push(new_device_view(id, r))
    }
}

/// The devices that a sequence of records forms, records taken in order.
pub open spec fn group_spec(recs: Seq<RecordView>) -> Seq<DeviceView>
    decreases recs.len(),
{
    if recs.len() == 0 {
        Seq::empty()
    } else {
        add_record(group_spec(recs.drop_last()), recs.last())
    }
}

/// No two devices share an identity.
pub open spec fn ids_distinct(devs: Seq<DeviceView>) -> bool {
    forall|i: int, j: int|
        0 <= i < devs.len() && 0 <= j < devs.len() && i != j ==> #[trigger] devs[i].id
            != #[trigger] devs[j].id
}

/// The device nodes of the records of identity `id`, in record order.
pub open spec fn nodes_with_id(recs: Seq<RecordView>, id: Seq<char>) -> Seq<Seq<char>>
    decreases recs.len(),
{
    if recs.len() == 0 {
        Seq::empty()
    } else if spec_resolve_id(recs.last()) == id {
        nodes_with_id(recs.drop_last(), id).push(recs.last().devnode)
    } else {
        nodes_with_id(recs.drop_last(), id)
    }
}

/// The first index in `devs` whose device has identity `id`, if any.
fn find_by_id(devs: &Vec<Device>, id: &String) -> (r: Option<usize>)
    ensures
        match r {
            Some(k) => k < devs@.len() && devs@[k as int].id@ == id@ && forall|j: int|
                0 <= j < k ==> devs@[j].id@ != id@,
            None => forall|j: int| 0 <= j < devs@.len() ==> devs@[j].id@ != id@,
        },
{
    let n = devs.len();
    let mut k: usize = 0;
    while k < n
        invariant
            n == devs@.len(),
            k <= n,
            forall|j: int| 0 <= j < k ==> devs@[j].id@ != id@,
        decreases n - k,
    {
        if devs[k].id == *id {
            return Some(k);
        }
        k = k + 1;
    }
    None
}

/// The first device of identity `id`, if any (the device that `enable` and
/// `disable` act on).
pub fn device_index_by_id(devices: &Vec<Device>, id: &str) -> (r: Option<usize>)
    ensures
        match r {
            Some(k) => k < devices@.len() && devices@[k as int].id@ == id@ && forall|j: int|
                0 <= j < k ==> devices@[j].id@ != id@,
            None => forall|j: int| 0 <= j < devices@.len() ==> devices@[j].id@ != id@,
        },
{
    find_by_id(devices, &id.to_owned())
}

/// Whether `nodes` holds `node`.
fn holds_node(nodes: &Vec<String>, node: &String) -> (r: bool)
    ensures
        r == strings_view(nodes@).contains(node@),
{
    let n = nodes.len();
    let mut k: usize = 0;
    while k < n
        invariant
            n == nodes@.len(),
            k <= n,
            forall|j: int| 0 <= j < k ==> nodes@[j]@ != node@,
        decreases n - k,
    {
        if nodes[k] == *node {
            assert(strings_view(nodes@)[k as int] == node@);
            return true;
        }
        k = k + 1;
    }
    proof {
        if strings_view(nodes@).contains(node@) {
            let j = choose|j: int| 0 <= j < nodes@.len() && strings_view(nodes@)[j] == node@;
            assert(nodes@[j]@ == node@);
        }
    }
    false
}

/// The first device that exposes the hidraw node `devnode`, if any (the
/// device whose saved state is re-applied when that node appears).
pub fn device_index_by_node(devices: &Vec<Device>, devnode: &str) -> (r: Option<usize>)
    ensures
        match r {
            Some(k) => k < devices@.len() && devices@[k as int]@.hidraw_nodes.contains(devnode@)
                && forall|j: int|
                0 <= j < k ==> !devices@[j]@.hidraw_nodes.contains(devnode@),
            None => forall|j: int|
                0 <= j < devices@.len() ==> !devices@[j]@.hidraw_nodes.contains(devnode@),
        },
{
    let node = devnode.to_owned();
    let n = devices.len();
    let mut k: usize = 0;
    while k < n
        invariant
            n == devices@.len(),
            k <= n,
            node@ == devnode@,
            forall|j: int| 0 <= j < k ==> !devices@[j]@.hidraw_nodes.contains(devnode@),
        decreases n - k,
    {
        if holds_node(&devices[k].hidraw_nodes, &node) {
            return Some(k);
        }
        k = k + 1;
    }
    None
}

/// Groups hidraw records into physical devices: records with the same identity
/// (see [`resolve_id`]) form one device that holds all their nodes in record
/// order and takes vendor, product and name from the first of them; devices
/// come in the order of their first record.
pub fn group_devices(records: Vec<RawHidrawRecord>) -> (devices: Vec<Device>)
    ensures
        devices_view(devices@) == group_spec(records_view(records@)),
{
    let ghost rv = records_view(records@);
    let mut devices: Vec<Device> = Vec::new();
    let n = records.len();
    let mut k: usize = 0;
    proof {
        assert(rv.take(0) =~= Seq::<RecordView>::empty());
        assert(devices_view(devices@) =~= Seq::<DeviceView>::empty());
    }
    while k < n
        invariant
            n == records@.len(),
            rv == records_view(records@),
            k <= n,
            devices_view(devices@) == group_spec(rv.take(k as int)),
        decreases n - k,
    {
        let record = &records[k];
        let id = resolve_id(record);
        let ghost before = devices_view(devices@);
        proof {
            assert(rv.take(k + 1).drop_last() =~= rv.take(k as int));
            assert(rv.take(k + 1).last() == record@);
            lemma_group_ids_distinct(rv.take(k as int));
        }
        match find_by_id(&devices, &id) {
            Some(i) => {
                let node = record.devnode.clone();
                let ghost old_dev = devices@[i as int];
                devices[i].hidraw_nodes.push(node);
                proof {
                    assert(before[i as int].id == id@);
                    assert(has_id(before, id@));
                    let c = choose|c: int| 0 <= c < before.len() && #[trigger] before[c].id == id@;
                    assert(c == i);
                    assert(strings_view(devices@[i as int].hidraw_nodes@) =~= strings_view(
                        old_dev.hidraw_nodes@,
                    ).push(record.devnode@));
                    assert(devices_view(devices@) =~= add_record(before, record@));
                }
            },
            None => {
                let mut nodes: Vec<String> = Vec::new();
                nodes.push(record.devnode.clone());
                let product_name = match &record.product_name {
                    Some(name) => Some(name.clone()),
                    None => None,
                };
                let device = Device {
                    id,
                    vendor: record.vendor,
                    product: record.product,
                    product_name,
                    hidraw_nodes: nodes,
                };
                devices.push(device);
                proof {
                    assert(!has_id(before, spec_resolve_id(record@)));
                    assert(strings_view(nodes@) =~= seq![record.devnode@]);
                    assert(devices_view(devices@) =~= add_record(before, record@));
                }
            },
        }
        k = k + 1;
    }
    proof {
        assert(rv.take(n as int) =~= rv);
    }
    devices
}

/// The devices formed from any records never share an identity.
pub proof fn lemma_group_ids_distinct(recs: Seq<RecordView>)
    ensures
        ids_distinct(group_spec(recs)),
    decreases recs.len(),
{
    if recs.len() > 0 {
        lemma_group_ids_distinct(recs.drop_last());
    }
}

/// The index of the first record of identity `id`, or `-1` when there is none.
pub open spec fn first_record_index(recs: Seq<RecordView>, id: Seq<char>) -> int
    decreases recs.len(),
{
    if recs.len() == 0 {
        -1
    } else {
        let p = first_record_index(recs.drop_last(), id);
        if p >= 0 {
            p
        } else if spec_resolve_id(recs.last()) == id {
            recs.len() - 1
        } else {
            -1
        }
    }
}

/// What `first_record_index` means: the first index whose record has identity `id`.
pub proof fn lemma_first_record_index(recs: Seq<RecordView>, id: Seq<char>)
    ensures
        first_record_index(recs, id) >= 0 <==> exists|k: int|
            0 <= k < recs.len() && #[trigger] spec_resolve_id(recs[k]) == id,
        first_record_index(recs, id) >= 0 ==> {
            let f = first_record_index(recs, id);
            &&& f < recs.len()
            &&& spec_resolve_id(recs[f]) == id
            &&& forall|k: int| 0 <= k < f ==> #[trigger] spec_resolve_id(recs[k]) != id
        },
    decreases recs.len(),
{
    if recs.len() > 0 {
        let d = recs.drop_last();
        lemma_first_record_index(d, id);
        if first_record_index(d, id) < 0 {
            assert forall|k: int| 0 <= k < recs.len() - 1 implies #[trigger] spec_resolve_id(
                recs[k],
            ) != id by {
                assert(recs[k] == d[k]);
                if spec_resolve_id(recs[k]) == id {
                    assert(spec_resolve_id(d[k]) == id);
                }
            }
        } else {
            let f = first_record_index(d, id);
            assert(recs[f] == d[f]);
            assert forall|k: int| 0 <= k < f implies #[trigger] spec_resolve_id(recs[k]) != id by {
                assert(recs[k] == d[k]);
            }
        }
    }
}

/// The grouping law: for the devices formed from any records,
/// - a device exists for an identity exactly when some record has it;
/// - each device holds the nodes of exactly the records of its identity, in
///   record order;
/// - each device takes vendor, product and product name from the first record
///   of its identity;
/// - devices come in the order of their first records.
pub proof fn lemma_group_characterized(recs: Seq<RecordView>)
    ensures
        forall|id: Seq<char>|
            #![trigger has_id(group_spec(recs), id)]
            has_id(group_spec(recs), id) <==> first_record_index(recs, id) >= 0,
        forall|i: int|
            0 <= i < group_spec(recs).len() ==> (#[trigger] group_spec(recs)[i]).hidraw_nodes
                == nodes_with_id(recs, group_spec(recs)[i].id),
        forall|i: int|
            0 <= i < group_spec(recs).len() ==> {
                let d = #[trigger] group_spec(recs)[i];
                let f = first_record_index(recs, d.id);
                &&& 0 <= f < recs.len()
                &&& d.vendor == recs[f].vendor
                &&& d.product == recs[f].product
                &&& d.product_name == recs[f].product_name
            },
        forall|i: int, j: int|
            0 <= i < j < group_spec(recs).len() ==> first_record_index(
                recs,
                (#[trigger] group_spec(recs)[i]).id,
            ) < first_record_index(recs, (#[trigger] group_spec(recs)[j]).id),
    decreases recs.len(),
{
    if recs.len() > 0 {
        let d = recs.drop_last();
        let r = recs.last();
        let g0 = group_spec(d);
        let g = group_spec(recs);
        let rid = spec_resolve_id(r);
        lemma_group_characterized(d);
        lemma_group_ids_distinct(d);
        assert(g == add_record(g0, r));
        // Identities present before the last record keep their first record.
        assert forall|id: Seq<char>| has_id(g0, id) implies first_record_index(recs, id)
            == first_record_index(d, id) by {}
        assert forall|id: Seq<char>| #![trigger has_id(g, id)] has_id(g, id) <==> first_record_index(recs, id) >= 0 by {
            if has_id(g0, rid) {
                let c = choose|c: int| 0 <= c < g0.len() && #[trigger] g0[c].id == rid;
                if has_id(g, id) {
                    let w = choose|w: int| 0 <= w < g.len() && #[trigger] g[w].id == id;
                    assert(g0[w].id == id);
                }
                if has_id(g0, id) {
                    let w = choose|w: int| 0 <= w < g0.len() && #[trigger] g0[w].id == id;
                    assert(g[w].id == id);
                }
            } else {
                if has_id(g, id) {
                    let w = choose|w: int| 0 <= w < g.len() && #[trigger] g[w].id == id;
                    if w < g0.len() {
                        assert(g0[w].id == id);
                    }
                }
                if has_id(g0, id) {
                    let w = choose|w: int| 0 <= w < g0.len() && #[trigger] g0[w].id == id;
                    assert(g[w].id == id);
                }
                assert(g[g.len() - 1].id == rid);
            }
        }
        assert forall|i: int| 0 <= i < g.len() implies (#[trigger] g[i]).hidraw_nodes
            == nodes_with_id(recs, g[i].id) by {
            if i < g0.len() {
                assert(has_id(g0, g0[i].id));
            }
            if has_id(g0, rid) {
                let c = choose|c: int| 0 <= c < g0.len() && #[trigger] g0[c].id == rid;
                if i != c {
                    assert(g0[i].id != g0[c].id);
                }
            } else if i == g0.len() {
                assert(!has_id(g0, rid));
                lemma_absent_has_no_nodes(d, rid);
            }
        }
        assert forall|i: int| 0 <= i < g.len() implies {
            let dv = #[trigger] g[i];
            let f = first_record_index(recs, dv.id);
            &&& 0 <= f < recs.len()
            &&& dv.vendor == recs[f].vendor
            &&& dv.product == recs[f].product
            &&& dv.product_name == recs[f].product_name
        } by {
            if i < g0.len() {
                assert(has_id(g0, g0[i].id));
                let f = first_record_index(d, g0[i].id);
                assert(recs[f] == d[f]);
            } else {
                assert(!has_id(g0, rid));
            }
        }
        assert forall|i: int, j: int| 0 <= i < j < g.len() implies first_record_index(
            recs,
            (#[trigger] g[i]).id,
        ) < first_record_index(recs, (#[trigger] g[j]).id) by {
            assert(has_id(g0, g0[i].id));
            if j < g0.len() {
                assert(has_id(g0, g0[j].id));
            } else {
                assert(!has_id(g0, rid));
            }
        }
    }
}

/// An identity that no formed device has has no nodes among the records.
pub proof fn lemma_absent_has_no_nodes(recs: Seq<RecordView>, id: Seq<char>)
    requires
        !has_id(group_spec(recs), id),
    ensures
        nodes_with_id(recs, id) == Seq::<Seq<char>>::empty(),
    decreases recs.len(),
{
    if recs.len() > 0 {
        let d = recs.drop_last();
        let g0 = group_spec(d);
        let g = group_spec(recs);
        let rid = spec_resolve_id(recs.last());
        if has_id(g0, id) {
            let w = choose|w: int| 0 <= w < g0.len() && #[trigger] g0[w].id == id;
            assert(g[w].id == id);
        }
        if rid == id {
            if has_id(g0, rid) {
            } else {
                assert(g[g.len() - 1].id == rid);
            }
        }
        lemma_absent_has_no_nodes(d, id);
    }
}

} // verus!
