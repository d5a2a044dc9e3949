//! What the control plane is for, stated over its calls.
use vstd::prelude::*;

use crate::capsule::{CapsuleError, CapsuleManifest};
use crate::control::descriptor::{ControlCapsuleSpec, VmCapsule};
use crate::control::error::ControlError;
use crate::control::plane::{Control, DestroyReceipt, LaunchReport, SnapshotReceipt};
use crate::control::stage;
use crate::control::stage::{Verb, VmStage};
use crate::control::views;
use crate::json;
use crate::json::JsonValue;
use crate::receipts::chain::{ChainError, Receipt, ReceiptChain};
use crate::text;
use crate::text_map;

verus! {

/// Which command is valid at which stage: a defined machine can be verified, a
/// verified one launched, a running one paused, stopped or kept as a snapshot, a
/// paused one kept as a snapshot, a stopped one destroyed. Nothing can be done
/// with a machine that is destroyed, snapshotted or failed.
pub proof fn commands_by_stage(verb: Verb, at: &VmStage, r: bool)
    requires
        call_ensures(Verb::valid_at, (verb, at), r),
    ensures
        at is Defined ==> (r <==> verb == Verb::Verify),
        at is Verified ==> (r <==> verb == Verb::Launch),
        at is Running ==> (r <==> verb == Verb::Pause || verb == Verb::Stop || verb
            == Verb::Snapshot),
        at is Paused ==> (r <==> verb == Verb::Snapshot),
        at is Stopped ==> (r <==> verb == Verb::Destroy),
        at is Destroyed || at is Snapshotted || at is Failed ==> !r,
{
}

/// The stage of a machine.
pub open spec fn stands(c: Control, id: Seq<char>) -> Option<VmStage> {
    text_map::lookup(c.machines(), id)
}

/// The check passes exactly where the machine is registered and the command valid
/// at its stage, and tells an unknown machine from one at another stage.
pub proof fn check_is_by_stage(
    c: &Control,
    verb: Verb,
    id: &str,
    r: Result<(), ControlError>,
    valid: bool,
)
    requires
        call_ensures(Control::check, (c, verb, id), r),
        stands(*c, id@) matches Some(at) ==> call_ensures(Verb::valid_at, (verb, &at), valid),
    ensures
        r is Ok <==> stands(*c, id@) is Some && valid,
        stands(*c, id@) is None <==> r is Err && r->Err_0 is NotFound,
        r is Err && stands(*c, id@) is Some ==> r->Err_0 is InvalidState,
{
}

proof fn others_stay(c: Control, d: Control, id: Seq<char>, to: VmStage, other: Seq<char>)
    requires
        d.machines() == text_map::put(c.machines(), id, to),
    ensures
        stands(d, id) == Some(to),
        other != id ==> stands(d, other) == stands(c, other),
{
    text_map::lookup_after_put(c.machines(), id, to, id);
    text_map::lookup_after_put(c.machines(), id, to, other);
}

/// A command on machine `id` ended with `r`: it went through and took the machine
/// from a stage that it needs to the one it leads to; or it was refused, and
/// nothing has changed; or the runtime failed, and the machine is unusable. Either
/// way the policy, the key service, the version and every other machine are as
/// they were.
pub open spec fn one_step(
    before: Control,
    after: Control,
    id: Seq<char>,
    other: Seq<char>,
    r: Result<String, ControlError>,
    needed: bool,
    to: VmStage,
) -> bool {
    &&& r is Ok ==> needed && stands(after, id) == Some(to)
    &&& !needed ==> r is Err && after == before
    &&& needed && r is Err ==> r->Err_0 is Vm && stands(after, id) == Some(
        VmStage::Failed(r->Err_0->Vm_0),
    )
    &&& other != id ==> stands(after, other) == stands(before, other)
    &&& after.policy() == before.policy()
    &&& after.service() == before.service()
    &&& after.version() == before.version()
}

/// Only a defined machine is verified.
pub proof fn vm_verify_takes_one_step<F: FnOnce(&str) -> Result<String, String>>(
    c: &mut Control,
    id: &str,
    run: F,
    r: Result<String, ControlError>,
    other: Seq<char>,
)
    requires
        call_ensures(Control::vm_verify::<F>, (c, id, run), r),
    ensures
        one_step(
            *old(c),
            *final(c),
            id@,
            other,
            r,
            stands(*old(c), id@) == Some(VmStage::Defined),
            VmStage::Verified,
        ),
        final(c).kept() == old(c).kept(),
{
    if stage::open_for(old(c).machines(), Verb::Verify, id@) {
        let out = choose|out: Result<String, String>|
            call_ensures(run, (id,), out) && Control::verified(*old(c), *final(c), id@, out, r);
        match out {
            Ok(_) => others_stay(*old(c), *final(c), id@, VmStage::Verified, other),
            Err(e) => others_stay(*old(c), *final(c), id@, VmStage::Failed(e), other),
        }
    }
}

/// Only a running machine is paused.
pub proof fn vm_pause_takes_one_step<F: FnOnce(&str) -> Result<(), String>>(
    c: &mut Control,
    id: &str,
    run: F,
    r: Result<String, ControlError>,
    other: Seq<char>,
)
    requires
        call_ensures(Control::vm_pause::<F>, (c, id, run), r),
    ensures
        one_step(
            *old(c),
            *final(c),
            id@,
            other,
            r,
            stands(*old(c), id@) == Some(VmStage::Running),
            VmStage::Paused,
        ),
        final(c).kept() == old(c).kept(),
{
    if stage::open_for(old(c).machines(), Verb::Pause, id@) {
        let out = choose|out: Result<(), String>|
            call_ensures(run, (id,), out) && Control::paused(*old(c), *final(c), id@, out, r);
        match out {
            Ok(_) => others_stay(*old(c), *final(c), id@, VmStage::Paused, other),
            Err(e) => others_stay(*old(c), *final(c), id@, VmStage::Failed(e), other),
        }
    }
}

/// Only a running machine is stopped.
pub proof fn vm_stop_takes_one_step<F: FnOnce(&str) -> Result<(), String>>(
    c: &mut Control,
    id: &str,
    run: F,
    r: Result<String, ControlError>,
    other: Seq<char>,
)
    requires
        call_ensures(Control::vm_stop::<F>, (c, id, run), r),
    ensures
        one_step(
            *old(c),
            *final(c),
            id@,
            other,
            r,
            stands(*old(c), id@) == Some(VmStage::Running),
            VmStage::Stopped,
        ),
        final(c).kept() == old(c).kept(),
{
    if stage::open_for(old(c).machines(), Verb::Stop, id@) {
        let out = choose|out: Result<(), String>|
            call_ensures(run, (id,), out) && Control::stopped(*old(c), *final(c), id@, out, r);
        match out {
            Ok(_) => others_stay(*old(c), *final(c), id@, VmStage::Stopped, other),
            Err(e) => others_stay(*old(c), *final(c), id@, VmStage::Failed(e), other),
        }
    }
}

/// Only a verified machine is launched, and it runs only where all four steps went
/// through.
pub proof fn vm_launch_takes_one_step<
    X,
    Y,
    Z,
    P: FnOnce(&str) -> Result<X, String>,
    U: FnOnce(X) -> Result<Y, String>,
    A: FnOnce(Y) -> Result<Z, String>,
    F: FnOnce(Z) -> Result<LaunchReport, String>,
>(
    c: &mut Control,
    id: &str,
    prepare: P,
    unlock: U,
    attach: A,
    run: F,
    r: Result<String, ControlError>,
    other: Seq<char>,
)
    requires
        call_ensures(
            Control::vm_launch::<X, Y, Z, P, U, A, F>,
            (c, id, prepare, unlock, attach, run),
            r,
        ),
    ensures
        one_step(
            *old(c),
            *final(c),
            id@,
            other,
            r,
            stands(*old(c), id@) == Some(VmStage::Verified),
            VmStage::Running,
        ),
        final(c).kept() == old(c).kept(),
        r is Ok ==> exists|x: X, y: Y, z: Z, report: LaunchReport| #[trigger]
            call_ensures(prepare, (id,), Ok::<X, String>(x)) && #[trigger] call_ensures(
                unlock,
                (x,),
                Ok::<Y, String>(y),
            ) && #[trigger] call_ensures(attach, (y,), Ok::<Z, String>(z))
                && #[trigger] call_ensures(run, (z,), Ok::<LaunchReport, String>(report)),
{
    if stage::open_for(old(c).machines(), Verb::Launch, id@) {
        let out = choose|out: Result<LaunchReport, String>|
            #[trigger] Control::driven(id, prepare, unlock, attach, run, out)
                && Control::launched(*old(c), *final(c), id@, out, r);
        match out {
            Ok(report) => {
                others_stay(*old(c), *final(c), id@, VmStage::Running, other);
                steps_went_through(id, prepare, unlock, attach, run, report);
            },
            Err(e) => others_stay(*old(c), *final(c), id@, VmStage::Failed(e), other),
        }
    }
}

proof fn steps_went_through<
    X,
    Y,
    Z,
    P: FnOnce(&str) -> Result<X, String>,
    U: FnOnce(X) -> Result<Y, String>,
    A: FnOnce(Y) -> Result<Z, String>,
    F: FnOnce(Z) -> Result<LaunchReport, String>,
>(id: &str, prepare: P, unlock: U, attach: A, run: F, report: LaunchReport)
    requires
        Control::driven(id, prepare, unlock, attach, run, Ok::<LaunchReport, String>(report)),
    ensures
        exists|x: X, y: Y, z: Z| #[trigger]
            call_ensures(prepare, (id,), Ok::<X, String>(x)) && #[trigger] call_ensures(
                unlock,
                (x,),
                Ok::<Y, String>(y),
            ) && #[trigger] call_ensures(attach, (y,), Ok::<Z, String>(z)) && call_ensures(
                run,
                (z,),
                Ok::<LaunchReport, String>(report),
            ),
{
    let out = Ok::<LaunchReport, String>(report);
    let p = choose|p: Result<X, String>|
        {
            &&& #[trigger] call_ensures(prepare, (id,), p)
            &&& match p {
                Err(e) => out == Err::<LaunchReport, String>(e),
                Ok(x) => exists|u: Result<Y, String>|
                    {
                        &&& #[trigger] call_ensures(unlock, (x,), u)
                        &&& match u {
                            Err(e) => out == Err::<LaunchReport, String>(e),
                            Ok(y) => exists|a: Result<Z, String>|
                                {
                                    &&& #[trigger] call_ensures(attach, (y,), a)
                                    &&& match a {
                                        Err(e) => out == Err::<LaunchReport, String>(e),
                                        Ok(z) => call_ensures(run, (z,), out),
                                    }
                                },
                        }
                    },
            }
        };
    let x = p->Ok_0;
    let u = choose|u: Result<Y, String>|
        {
            &&& #[trigger] call_ensures(unlock, (x,), u)
            &&& match u {
                Err(e) => out == Err::<LaunchReport, String>(e),
                Ok(y) => exists|a: Result<Z, String>|
                    {
                        &&& #[trigger] call_ensures(attach, (y,), a)
                        &&& match a {
                            Err(e) => out == Err::<LaunchReport, String>(e),
                            Ok(z) => call_ensures(run, (z,), out),
                        }
                    },
            }
        };
    let y = u->Ok_0;
    let a = choose|a: Result<Z, String>|
        {
            &&& #[trigger] call_ensures(attach, (y,), a)
            &&& match a {
                Err(e) => out == Err::<LaunchReport, String>(e),
                Ok(z) => call_ensures(run, (z,), out),
            }
        };
    let z = a->Ok_0;
    assert(call_ensures(prepare, (id,), Ok::<X, String>(x)));
    assert(call_ensures(unlock, (x,), Ok::<Y, String>(y)));
    assert(call_ensures(attach, (y,), Ok::<Z, String>(z)));
}

/// Only a running or a paused machine is kept as a snapshot; the receipt is then
/// found under the name, and other snapshots stay.
pub proof fn vm_snapshot_takes_one_step<
    P: FnOnce(&str) -> Result<(), String>,
    F: FnOnce(&str) -> Result<SnapshotReceipt, String>,
>(
    c: &mut Control,
    id: &str,
    name: &str,
    pause: P,
    run: F,
    r: Result<String, ControlError>,
    other: Seq<char>,
)
    requires
        call_ensures(Control::vm_snapshot::<P, F>, (c, id, name, pause, run), r),
    ensures
        one_step(
            *old(c),
            *final(c),
            id@,
            other,
            r,
            stands(*old(c), id@) == Some(VmStage::Running) || stands(*old(c), id@) == Some(
                VmStage::Paused,
            ),
            VmStage::Snapshotted,
        ),
        r is Ok ==> text_map::lookup(final(c).kept(), name@) is Some,
        r is Ok ==> call_ensures(
            run,
            (id,),
            Ok::<SnapshotReceipt, String>(text_map::lookup(final(c).kept(), name@)->0),
        ),
        other != name@ ==> text_map::lookup(final(c).kept(), other) == text_map::lookup(
            old(c).kept(),
            other,
        ),
        r is Err ==> final(c).kept() == old(c).kept(),
{
    if stage::open_for(old(c).machines(), Verb::Snapshot, id@) {
        if stands(*old(c), id@) == Some(VmStage::Running) {
            let p = choose|p: Result<(), String>|
                {
                    &&& #[trigger] call_ensures(pause, (id,), p)
                    &&& match p {
                        Err(e) => Control::failed(*old(c), *final(c), id@, r, e),
                        Ok(_) => exists|out: Result<SnapshotReceipt, String>|
                            #[trigger] call_ensures(run, (id,), out) && Control::snapshotted(
                                *old(c),
                                *final(c),
                                id@,
                                name@,
                                out,
                                r,
                            ),
                    }
                };
            if let Err(e) = p {
                others_stay(*old(c), *final(c), id@, VmStage::Failed(e), other);
                return_is_failure(*old(c), *final(c), id@, r, e);
            } else {
                let out = choose|out: Result<SnapshotReceipt, String>|
                    #[trigger] call_ensures(run, (id,), out) && Control::snapshotted(
                        *old(c),
                        *final(c),
                        id@,
                        name@,
                        out,
                        r,
                    );
                snapshot_settled(*old(c), *final(c), id@, name@, out, r, other);
            }
        } else {
            let out = choose|out: Result<SnapshotReceipt, String>|
                #[trigger] call_ensures(run, (id,), out) && Control::snapshotted(
                    *old(c),
                    *final(c),
                    id@,
                    name@,
                    out,
                    r,
                );
            snapshot_settled(*old(c), *final(c), id@, name@, out, r, other);
        }
    }
}

proof fn return_is_failure(
    before: Control,
    after: Control,
    id: Seq<char>,
    r: Result<String, ControlError>,
    e: String,
)
    requires
        Control::failed(before, after, id, r, e),
    ensures
        r is Err,
        r->Err_0 is Vm,
        r->Err_0->Vm_0 == e,
        after.kept() == before.kept(),
{
}

proof fn snapshot_settled(
    before: Control,
    after: Control,
    id: Seq<char>,
    name: Seq<char>,
    out: Result<SnapshotReceipt, String>,
    r: Result<String, ControlError>,
    other: Seq<char>,
)
    requires
        Control::snapshotted(before, after, id, name, out, r),
    ensures
        r is Ok <==> out is Ok,
        out matches Ok(receipt) ==> {
            &&& text_map::lookup(after.kept(), name) == Some(receipt)
            &&& other != name ==> text_map::lookup(after.kept(), other) == text_map::lookup(
                before.kept(),
                other,
            )
            &&& stands(after, id) == Some(VmStage::Snapshotted)
        },
        out matches Err(e) ==> {
            &&& r == Err::<String, ControlError>(ControlError::Vm(e))
            &&& stands(after, id) == Some(VmStage::Failed(e))
            &&& after.kept() == before.kept()
        },
        other != id ==> stands(after, other) == stands(before, other),
        after.same_settings(before),
{
    match out {
        Ok(receipt) => {
            others_stay(before, after, id, VmStage::Snapshotted, other);
            text_map::lookup_after_put(before.kept(), name, receipt, name);
            text_map::lookup_after_put(before.kept(), name, receipt, other);
        },
        Err(e) => others_stay(before, after, id, VmStage::Failed(e), other),
    }
}

/// Only a stopped machine is destroyed, and only where the wipe was confirmed:
/// without that nothing changes.
pub proof fn vm_destroy_takes_one_step<F: FnOnce(&str) -> Result<DestroyReceipt, String>>(
    c: &mut Control,
    id: &str,
    wipe: bool,
    run: F,
    r: Result<String, ControlError>,
    other: Seq<char>,
)
    requires
        call_ensures(Control::vm_destroy::<F>, (c, id, wipe, run), r),
    ensures
        one_step(
            *old(c),
            *final(c),
            id@,
            other,
            r,
            wipe && stands(*old(c), id@) == Some(VmStage::Stopped),
            VmStage::Destroyed,
        ),
        stands(*old(c), id@) == Some(VmStage::Stopped) && !wipe ==> r->Err_0 is WipeRequired,
        final(c).kept() == old(c).kept(),
{
    if stage::open_for(old(c).machines(), Verb::Destroy, id@) && wipe {
        let out = choose|out: Result<DestroyReceipt, String>|
            call_ensures(run, (id,), out) && Control::destroyed(*old(c), *final(c), id@, out, r);
        match out {
            Ok(_) => others_stay(*old(c), *final(c), id@, VmStage::Destroyed, other),
            Err(e) => others_stay(*old(c), *final(c), id@, VmStage::Failed(e), other),
        }
    }
}

/// A definition that fails registers nothing and changes nothing; one that succeeds
/// registers the machine under the id that the runtime gave, as defined, and
/// leaves the others alone.
pub proof fn definition_registers_one_machine(
    c: &mut Control,
    out: Result<String, String>,
    r: Result<String, ControlError>,
    other: Seq<char>,
)
    requires
        call_ensures(Control::settle_define, (c, out), r),
    ensures
        r is Ok <==> out is Ok,
        out matches Ok(id) ==> r == Ok::<String, ControlError>(id) && stands(*final(c), id@)
            == Some(VmStage::Defined),
        out matches Ok(id) ==> other != id@ ==> stands(*final(c), other) == stands(
            *old(c),
            other,
        ),
        out matches Err(e) ==> *final(c) == *old(c) && r == Err::<String, ControlError>(
            ControlError::Vm(e),
        ),
{
    if let Ok(id) = out {
        others_stay(*old(c), *final(c), id@, VmStage::Defined, other);
    }
}

/// A new control plane knows no machine and no snapshot.
pub proof fn new_plane_knows_nothing(c: Control, id: Seq<char>)
    requires
        call_ensures(Control::new_local, (), c),
    ensures
        stands(c, id) is None,
        text_map::lookup(c.kept(), id) is None,
        c.version() == 52,
        c.policy().minimum_hypervisor_version == 52,
        c.policy().network_default@ == "deny"@,
        c.policy().require_signed_manifest && c.policy().require_measured_boot,
        !c.policy().allow_device_passthrough && !c.policy().allow_debug_console,
        c.policy().storage.require_encryption,
{
}

/// A capsule is assembled only around a manifest of the known schema that one of
/// the listed keys signed, that wants no newer hypervisor, and whose boot policy
/// is no older than the tenant accepts. What the host needs comes from the
/// descriptor, the machine's size from the manifest.
pub proof fn assembled_capsule_is_signed_and_sized<
    F: FnOnce(&[u8]) -> Result<CapsuleManifest, String>,
>(
    s: ControlCapsuleSpec,
    version: u64,
    read: F,
    c: VmCapsule,
)
    requires
        call_ensures(
            ControlCapsuleSpec::into_capsule::<F>,
            (s, version, read),
            Ok::<VmCapsule, ControlError>(c),
        ),
    ensures
        s.schema@ == "chain.control.capsule.v1"@,
        s.manifest@.len() <= 64 * 1024,
        c.manifest.contents().schema@ == "chain.vm_capsule.v1"@,
        c.manifest.contents().hypervisor_min_version <= version,
        s.policy.tenant_min_boot_policy <= c.manifest.contents().boot_policy_version,
        exists|i: int, j: int|
            0 <= i < c.manifest.contents().signatures@.len() && 0 <= j < s.allowed_key_ids@.len()
                && (#[trigger] c.manifest.contents().signatures@[i]).key_id@ == (
            #[trigger] s.allowed_key_ids@[j])@,
        c.capsule_id == s.capsule_id,
        c.boot == s.boot,
        c.storage == s.storage,
        c.network == s.network,
        c.devices == s.devices,
        c.policy == s.policy,
        c.key_plan == s.key_plan,
        c.vcpus == c.manifest.contents().cpu.vcpus,
        c.max_mb == c.manifest.contents().memory.max_mb,
        exists|b: &[u8]|
            b@ == s.manifest@ && #[trigger] call_ensures(
                read,
                (b,),
                Ok::<CapsuleManifest, String>(c.manifest.contents()),
            ),
{
    crate::control::descriptor::assembled_is_verified(s, version, read, c);
    let sigs = c.manifest.contents().signatures@;
    let i = choose|i: int| crate::capsule::trusted_at(sigs, s.trusted(), i);
    let keys = text::views(s.allowed_key_ids@);
    assert(keys.contains(sigs[i].key_id@));
    let j = choose|j: int| 0 <= j < keys.len() && keys[j] == sigs[i].key_id@;
    assert(s.allowed_key_ids@[j]@ == sigs[i].key_id@);
    let (b, parsed) = choose|b: &[u8], parsed: Result<CapsuleManifest, String>|
        b@ == s.manifest@ && #[trigger] call_ensures(read, (b,), parsed) && s.settled(
            version,
            parsed,
            Ok(c),
        );
    assert(parsed == Ok::<CapsuleManifest, String>(c.manifest.contents()));
}

/// A capsule is refused as too old only where its boot policy is below the tenant's
/// minimum, and both are named.
pub proof fn too_old_is_below_the_minimum<F: FnOnce(&[u8]) -> Result<CapsuleManifest, String>>(
    s: ControlCapsuleSpec,
    version: u64,
    read: F,
    have: u64,
    need: u64,
)
    requires
        call_ensures(
            ControlCapsuleSpec::into_capsule::<F>,
            (s, version, read),
            Err::<VmCapsule, ControlError>(
                ControlError::Capsule(CapsuleError::BootPolicyTooOld { have, need }),
            ),
        ),
    ensures
        need == s.policy.tenant_min_boot_policy,
        have < need,
{
}

/// The receipts that are shown of a machine are all those about it, in order, and
/// no others.
pub proof fn shown_receipts_are_the_machines(rs: Seq<Receipt>, id: Seq<char>)
    ensures
        views::receipts_about(rs, id) == rs.filter(|r: Receipt| r.subject@ == id).map_values(
            |r: Receipt| views::receipt_view(r),
        ),
    decreases rs.len(),
{
    reveal(Seq::filter);
    let about = |r: Receipt| r.subject@ == id;
    let show = |r: Receipt| views::receipt_view(r);
    if rs.len() > 0 {
        shown_receipts_are_the_machines(rs.drop_last(), id);
        let front = rs.drop_last().filter(about);
        if rs.last().subject@ == id {
            assert(rs.filter(about) == front.push(rs.last()));
            assert(front.push(rs.last()).map_values(show) =~= front.map_values(show).push(
                show(rs.last()),
            ));
        }
    } else {
        assert(rs.filter(about).map_values(show) =~= Seq::empty());
    }
}

/// Receipts are shown exactly where the chain verifies.
pub proof fn receipts_are_shown_of_a_sound_chain(
    c: &Control,
    chain: &ReceiptChain,
    vm: Option<&str>,
    r: Result<String, ControlError>,
    v: Result<(), ChainError>,
)
    requires
        call_ensures(Control::receipts_verify, (c, chain, vm), r),
        call_ensures(ReceiptChain::verify, (chain,), v),
    ensures
        r is Ok <==> v is Ok,
        r is Err ==> r->Err_0 is Receipt,
{
}

/// A health report pins what it reports: two reports that read alike are of planes
/// with the same version, the same policy id and the same machines, and of chains
/// that are equally long and equally sound.
pub proof fn report_pins_what_it_reports(
    c: &Control,
    d: &Control,
    x: &ReceiptChain,
    y: &ReceiptChain,
    a: String,
    b: String,
    vx: Result<(), ChainError>,
    vy: Result<(), ChainError>,
    i: int,
)
    requires
        call_ensures(Control::slate_doctor, (c, x), a),
        call_ensures(Control::slate_doctor, (d, y), b),
        a@ == b@,
        call_ensures(ReceiptChain::verify, (x,), vx),
        call_ensures(ReceiptChain::verify, (y,), vy),
        0 <= i < c.machines().len(),
    ensures
        c.version() == d.version(),
        c.policy().policy_id@ == d.policy().policy_id@,
        c.policy().network_default@ == d.policy().network_default@,
        x.entries().len() == y.entries().len(),
        vx is Ok == vy is Ok,
        c.machines().len() == d.machines().len(),
        c.machines()[i].0 == d.machines()[i].0,
        c.machines()[i].1.name() == d.machines()[i].1.name(),
{
    let (p, q) = (views::doctor_view(*c, *x), views::doctor_view(*d, *y));
    json::indented::pretty_is_injective(p, q);
    let (s, t) = (p->Object_0, q->Object_0);
    assert(s[3] == t[3] && s[4] == t[4] && s[5] == t[5] && s[6] == t[6] && s[7] == t[7]);
    assert(s[11] == t[11] && s[12] == t[12]);
    let (u, v) = (s[12].1->List_0, t[12].1->List_0);
    assert(u.len() == c.machines().len() && v.len() == d.machines().len());
    assert(u[i] == views::vm_view(c.machines()[i].0, c.machines()[i].1));
    assert(v[i] == views::vm_view(d.machines()[i].0, d.machines()[i].1));
    let (e, f) = (u[i]->Object_0, v[i]->Object_0);
    assert(e[0] == f[0] && e[1] == f[1]);
}

/// A stage is shown by its name, and a failure with its reason; no two stages are
/// shown alike.
pub proof fn stage_names_tell_apart(a: &VmStage, b: &VmStage, x: String, y: String)
    requires
        call_ensures(VmStage::state_name, (a,), x),
        call_ensures(VmStage::state_name, (b,), y),
        x@ == y@,
    ensures
        a is Defined == b is Defined && a is Verified == b is Verified,
        a is Running == b is Running && a is Paused == b is Paused,
        a is Stopped == b is Stopped && a is Destroyed == b is Destroyed,
        a is Snapshotted == b is Snapshotted && a is Failed == b is Failed,
        a matches VmStage::Failed(why) ==> b is Failed && b->Failed_0@ == why@,
{
    reveal_strlit("defined");
    reveal_strlit("verified");
    reveal_strlit("running");
    reveal_strlit("paused");
    reveal_strlit("stopped");
    reveal_strlit("destroyed");
    reveal_strlit("snapshotted");
    reveal_strlit("failed: ");
    assert("defined"@.len() == 7 && "verified"@.len() == 8 && "running"@.len() == 7);
    assert("paused"@.len() == 6 && "stopped"@.len() == 7 && "destroyed"@.len() == 9);
    assert("snapshotted"@.len() == 11 && "failed: "@.len() == 8);
    assert("defined"@[0] == 'd' && "running"@[0] == 'r' && "stopped"@[0] == 's');
    assert("verified"@[0] == 'v' && "paused"@[0] == 'p' && "destroyed"@[0] == 'd');
    assert("snapshotted"@[0] == 's');
    let f = "failed: "@;
    assert(f[0] == 'f');
    if a is Failed {
        assert(x@[0] == 'f');
        assert(x@.skip(8) =~= a->Failed_0@);
    }
    if b is Failed {
        assert(y@[0] == 'f');
        assert(y@.skip(8) =~= b->Failed_0@);
    }
}

/// What a command needs is the name of a stage at which it is valid.
pub proof fn needed_stage_allows_the_command(
    verb: Verb,
    at: &VmStage,
    needed: &'static str,
    name: String,
    valid: bool,
)
    requires
        call_ensures(Verb::needed, (verb,), needed),
        call_ensures(VmStage::state_name, (at,), name),
        call_ensures(Verb::valid_at, (verb, at), valid),
        verb != Verb::Snapshot,
        needed@ == name@,
    ensures
        valid,
{
    reveal_strlit("defined");
    reveal_strlit("verified");
    reveal_strlit("running");
    reveal_strlit("paused");
    reveal_strlit("stopped");
    reveal_strlit("destroyed");
    reveal_strlit("snapshotted");
    reveal_strlit("failed: ");
    assert("defined"@.len() == 7 && "verified"@.len() == 8 && "running"@.len() == 7);
    assert("paused"@.len() == 6 && "stopped"@.len() == 7 && "destroyed"@.len() == 9);
    assert("snapshotted"@.len() == 11 && "failed: "@.len() == 8);
    assert("defined"@[0] == 'd' && "running"@[0] == 'r' && "stopped"@[0] == 's');
    assert("verified"@[0] == 'v' && "failed: "@[0] == 'f');
    if at is Failed {
        assert(name@[0] == 'f');
    }
}

/// The policy view shows the version that the plane speaks for and every rule of
/// its policy, and says that what is not allowed is denied.
pub proof fn policy_view_shows_the_policy(c: &Control, r: String, v: JsonValue)
    requires
        call_ensures(Control::policy_inspect, (c,), r),
        r@ == json::pretty(v, Seq::empty()),
    ensures
        json::laws::has_member(v, "deny_by_default"@, JsonValue::Bool(true)),
        json::laws::has_member(v, "hypervisor_version"@, JsonValue::Num(c.version() as nat)),
        exists|p: JsonValue|
            {
                let d = c.policy();
                &&& #[trigger] json::laws::has_member(v, "policy"@, p)
                &&& json::laws::has_member(p, "policy_id"@, JsonValue::Text(d.policy_id@))
                &&& json::laws::has_member(p, "allow_debug_console"@, JsonValue::Bool(d.allow_debug_console))
                &&& json::laws::has_member(
                    p,
                    "allow_device_passthrough"@,
                    JsonValue::Bool(d.allow_device_passthrough),
                )
                &&& json::laws::has_member(
                    p,
                    "minimum_hypervisor_version"@,
                    JsonValue::Num(d.minimum_hypervisor_version as nat),
                )
                &&& json::laws::has_member(p, "network_default"@, JsonValue::Text(d.network_default@))
                &&& json::laws::has_member(
                    p,
                    "require_measured_boot"@,
                    JsonValue::Bool(d.require_measured_boot),
                )
                &&& json::laws::has_member(
                    p,
                    "require_signed_manifest"@,
                    JsonValue::Bool(d.require_signed_manifest),
                )
                &&& json::laws::has_member(p, "schema_version"@, JsonValue::Num(d.schema_version as nat))
            },
{
    json::indented::pretty_is_injective(v, views::policy_view(*c));
    let o = v->Object_0;
    let p = o[2].1;
    assert(o[0].0 == "deny_by_default"@ && o[1].0 == "hypervisor_version"@);
    assert(o[2] == ("policy"@, p));
    let m = p->Object_0;
    assert(m[0].0 == "allow_debug_console"@ && m[1].0 == "allow_device_passthrough"@);
    assert(m[3].0 == "minimum_hypervisor_version"@ && m[4].0 == "network_default"@);
    assert(m[5].0 == "policy_id"@ && m[6].0 == "require_measured_boot"@);
    assert(m[7].0 == "require_signed_manifest"@ && m[8].0 == "schema_version"@);
    assert(json::laws::has_member(v, "policy"@, p));
}

/// A refusal names the machine and, where it is known, the command, the stage that
/// it is at and the one that the command needs.
pub proof fn refusal_says_what_is_needed(
    c: &Control,
    verb: Verb,
    id: &str,
    e: ControlError,
    name: &'static str,
    needed: &'static str,
    at: &VmStage,
    shown: String,
)
    requires
        call_ensures(Control::check, (c, verb, id), Err::<(), ControlError>(e)),
        call_ensures(Verb::as_str, (verb,), name),
        call_ensures(Verb::needed, (verb,), needed),
        stands(*c, id@) is Some ==> *at == stands(*c, id@)->0,
        call_ensures(VmStage::state_name, (at,), shown),
    ensures
        e matches ControlError::NotFound(which) ==> which@ == id@,
        e matches ControlError::InvalidState { action, id: which, found, needed: wanted } ==> {
            &&& which@ == id@
            &&& action@ == name@
            &&& found@ == shown@
            &&& wanted@ == needed@
        },
{
}

/// A machine is defined only of a descriptor that was read, as a capsule that the
/// plane verified: its manifest was read from the descriptor's bytes, is for a
/// hypervisor no newer than the plane's, and is signed under a key that the
/// descriptor allows. The id is the one that the runtime gave. Otherwise nothing
/// has changed.
pub proof fn only_verified_capsules_are_defined<
    S: FnOnce(&str) -> Result<ControlCapsuleSpec, String>,
    M: FnOnce(&[u8]) -> Result<CapsuleManifest, String>,
    D: FnOnce(VmCapsule) -> Result<String, String>,
>(
    c: &mut Control,
    text_form: &str,
    read_spec: S,
    read_manifest: M,
    define: D,
    r: Result<String, ControlError>,
)
    requires
        call_ensures(
            Control::vm_define::<S, M, D>,
            (c, text_form, read_spec, read_manifest, define),
            r,
        ),
    ensures
        r is Err ==> *final(c) == *old(c),
        r matches Ok(id) ==> stands(*final(c), id@) == Some(VmStage::Defined),
        r is Ok ==> exists|s: ControlCapsuleSpec, k: VmCapsule|
            {
                &&& #[trigger] call_ensures(
                    read_spec,
                    (text_form,),
                    Ok::<ControlCapsuleSpec, String>(s),
                )
                &&& #[trigger] call_ensures(define, (k,), Ok::<String, String>(r->Ok_0))
                &&& k.manifest.contents().hypervisor_min_version <= old(c).version()
                &&& s.policy.tenant_min_boot_policy <= k.manifest.contents().boot_policy_version
                &&& exists|i: int, j: int|
                    0 <= i < k.manifest.contents().signatures@.len() && 0 <= j
                        < s.allowed_key_ids@.len() && (
                    #[trigger] k.manifest.contents().signatures@[i]).key_id@ == (
                    #[trigger] s.allowed_key_ids@[j])@
            },
{
    let parsed = choose|parsed: Result<ControlCapsuleSpec, String>|
        #[trigger] call_ensures(read_spec, (text_form,), parsed) && Control::defined_from(
            *old(c),
            *final(c),
            parsed,
            read_manifest,
            define,
            r,
        );
    if let Ok(id) = r {
        let s = parsed->Ok_0;
        let capsule = choose|capsule: Result<VmCapsule, ControlError>|
            {
                &&& #[trigger] s.assembled(old(c).version(), read_manifest, capsule)
                &&& match capsule {
                    Err(e) => *final(c) == *old(c) && r == Err::<String, ControlError>(e),
                    Ok(k) => exists|out: Result<String, String>|
                        #[trigger] call_ensures(define, (k,), out) && Control::defined(
                            *old(c),
                            *final(c),
                            out,
                            r,
                        ),
                }
            };
        let k = capsule->Ok_0;
        let out = choose|out: Result<String, String>|
            #[trigger] call_ensures(define, (k,), out) && Control::defined(
                *old(c),
                *final(c),
                out,
                r,
            );
        assert(out == Ok::<String, String>(id));
        others_stay(*old(c), *final(c), id@, VmStage::Defined, id@);
        crate::control::descriptor::assembled_is_verified(s, old(c).version(), read_manifest, k);
        let sigs = k.manifest.contents().signatures@;
        let i = choose|i: int| crate::capsule::trusted_at(sigs, s.trusted(), i);
        let keys = text::views(s.allowed_key_ids@);
        assert(keys.contains(sigs[i].key_id@));
        let j = choose|j: int| 0 <= j < keys.len() && keys[j] == sigs[i].key_id@;
        assert(s.allowed_key_ids@[j]@ == sigs[i].key_id@);
        assert(parsed == Ok::<ControlCapsuleSpec, String>(s));
    }
}

} // verus!
