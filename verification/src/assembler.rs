//! Assembly of an ordered operation sequence into one signed atomic unit.
//! The assembler validates the protocol's ordering constraints, checks
//! that every required authority is among the signers, and fails closed
//! when one is absent; only then does it build and sign the unit.

use vstd::prelude::*;

use solana_sdk::instruction::Instruction;
use solana_sdk::transaction::Transaction;

use crate::errors::ProvisionError;
use crate::identity::spec_contains_addr;
use crate::identity::Address;
use crate::identity::SignerIdentity;
use crate::operations::op_wf;
use crate::operations::OpKind;
use crate::operations::Operation;
use crate::protocol;

verus! {

/// The ordering constraint table: `must_precede(a, b)` says every `a`
/// must come before every `b` in one atomic unit. A resource is created
/// before anything initializes or extends it; extension declarations come
/// before base initialization; the metadata record is populated after the
/// base is initialized.
pub open spec fn must_precede(a: OpKind, b: OpKind) -> bool {
    ||| (a == OpKind::CreateResource && b == OpKind::InitializeBase)
    ||| (a == OpKind::CreateResource && b == OpKind::AttachMetadataPointer)
    ||| (a == OpKind::CreateResource && b == OpKind::InitializeMetadata)
    ||| (a == OpKind::AttachMetadataPointer && b == OpKind::InitializeBase)
    ||| (a == OpKind::InitializeBase && b == OpKind::InitializeMetadata)
}

fn must_precede_exec(a: OpKind, b: OpKind) -> (r: bool)
    ensures
        r == must_precede(a, b),
{
    (a == OpKind::CreateResource && b == OpKind::InitializeBase) || (a == OpKind::CreateResource
        && b == OpKind::AttachMetadataPointer) || (a == OpKind::CreateResource && b
        == OpKind::InitializeMetadata) || (a == OpKind::AttachMetadataPointer && b
        == OpKind::InitializeBase) || (a == OpKind::InitializeBase && b
        == OpKind::InitializeMetadata)
}

/// No pair of operations stands in the wrong order.
pub open spec fn sequence_ok(kinds: Seq<OpKind>) -> bool {
    forall|i: int, j: int|
        0 <= i < j < kinds.len() ==> !must_precede(#[trigger] kinds[j], #[trigger] kinds[i])
}

pub open spec fn kinds_of(ops: Seq<Operation>) -> Seq<OpKind> {
    ops.map_values(|op: Operation| op.kind)
}

/// The instructions of an operation sequence, in order.
pub open spec fn instructions_of(ops: Seq<Operation>) -> Seq<Instruction> {
    ops.map_values(|op: Operation| op.ix)
}

/// Every authority an operation requires appears among the signer
/// addresses.
pub open spec fn op_covered(op: Operation, signer_addrs: Seq<Address>) -> bool {
    forall|k: int|
        0 <= k < op.required_signers@.len() ==> spec_contains_addr(
            signer_addrs,
            (#[trigger] op.required_signers@[k])@,
        )
}

pub open spec fn all_covered(ops: Seq<Operation>, signer_addrs: Seq<Address>) -> bool {
    forall|i: int| 0 <= i < ops.len() ==> op_covered(#[trigger] ops[i], signer_addrs)
}

/// Checks the ordering constraint table over a sequence.
pub fn check_sequence(ops: &Vec<Operation>) -> (r: bool)
    ensures
        r == sequence_ok(kinds_of(ops@)),
{
    let n = ops.len();
    let mut i: usize = 0;
    while i < n
        invariant
            i <= n,
            n == ops@.len(),
            forall|x: int, y: int|
                0 <= x < y < ops@.len() && x < i ==> !must_precede(
                    #[trigger] kinds_of(ops@)[y],
                    #[trigger] kinds_of(ops@)[x],
                ),
        decreases n - i,
    {
        let mut j: usize = i + 1;
        while j < n
            invariant
                i < j || j == i + 1,
                i + 1 <= j <= n,
                i < n,
                n == ops@.len(),
                forall|y: int|
                    i < y < j ==> !must_precede(kinds_of(ops@)[y], kinds_of(ops@)[i as int]),
            decreases n - j,
        {
            if must_precede_exec(ops[j].kind, ops[i].kind) {
                proof {
                    assert(kinds_of(ops@)[j as int] == ops@[j as int].kind);
                    assert(kinds_of(ops@)[i as int] == ops@[i as int].kind);
                }
                return false;
            }
            proof {
                assert(kinds_of(ops@)[j as int] == ops@[j as int].kind);
            }
            j = j + 1;
        }
        i = i + 1;
    }
    true
}

/// Checks that the signers cover every required authority of every
/// operation.
pub fn check_signatures(ops: &Vec<Operation>, signer_addrs: &Vec<Address>) -> (r: bool)
    ensures
        r == all_covered(ops@, signer_addrs@),
{
    let mut i: usize = 0;
    while i < ops.len()
        invariant
            i <= ops@.len(),
            forall|x: int| 0 <= x < i ==> op_covered(#[trigger] ops@[x], signer_addrs@),
        decreases ops.len() - i,
    {
        let op = &ops[i];
        let mut k: usize = 0;
        while k < op.required_signers.len()
            invariant
                k <= op.required_signers@.len(),
                i < ops@.len(),
                op == ops@[i as int],
                forall|y: int|
                    0 <= y < k ==> spec_contains_addr(
                        signer_addrs@,
                        (#[trigger] op.required_signers@[y])@,
                    ),
            decreases op.required_signers.len() - k,
        {
            if !crate::identity::contains_addr(signer_addrs, &op.required_signers[k]) {
                proof {
                    assert(!spec_contains_addr(
                        signer_addrs@,
                        ops@[i as int].required_signers@[k as int]@,
                    ));
                    assert(!op_covered(ops@[i as int], signer_addrs@));
                }
                return false;
            }
            k = k + 1;
        }
        i = i + 1;
    }
    true
}

/// Assembles and signs one atomic unit. Fails closed: an out-of-order
/// sequence is refused, and so is a sequence for which some required
/// authority, or the fee payer itself, is not among the signers; a signing
/// backend that cannot fill every required position is surfaced as an
/// error. On success the returned unit references exactly the operations'
/// instructions in the given order, fee-paid by `fee_payer`, with every
/// required signature filled over the freshness token `recent`.
pub fn assemble_unit(
    ops: &Vec<Operation>,
    fee_payer: &Address,
    signers: &Vec<SignerIdentity>,
    recent: &solana_sdk::hash::Hash,
) -> (r: Result<Transaction, ProvisionError>)
    requires
        ops@.len() <= 31,
        forall|i: int| 0 <= i < ops@.len() ==> op_wf(#[trigger] ops@[i]),
    ensures
        r matches Ok(tx) ==> sequence_ok(kinds_of(ops@)) && all_covered(
            ops@,
            signers@.map_values(|s: SignerIdentity| s.address),
        ) && spec_contains_addr(signers@.map_values(|s: SignerIdentity| s.address), fee_payer@)
            && protocol::tx_instructions_of(tx) == instructions_of(ops@) && protocol::fully_signed(
            tx,
        ),
        !sequence_ok(kinds_of(ops@)) ==> r == Err::<Transaction, ProvisionError>(
            ProvisionError::OrderingViolation,
        ),
        sequence_ok(kinds_of(ops@)) && !(all_covered(
            ops@,
            signers@.map_values(|s: SignerIdentity| s.address),
        ) && spec_contains_addr(signers@.map_values(|s: SignerIdentity| s.address), fee_payer@))
            ==> r == Err::<Transaction, ProvisionError>(ProvisionError::MissingAuthority),
        r matches Err(e) ==> (e == ProvisionError::OrderingViolation && !sequence_ok(
            kinds_of(ops@),
        )) || (e == ProvisionError::MissingAuthority && sequence_ok(kinds_of(ops@)) && !(
        all_covered(ops@, signers@.map_values(|s: SignerIdentity| s.address))
            && spec_contains_addr(
            signers@.map_values(|s: SignerIdentity| s.address),
            fee_payer@,
        ))) || (e == ProvisionError::SigningFailed && sequence_ok(kinds_of(ops@)) && all_covered(
            ops@,
            signers@.map_values(|s: SignerIdentity| s.address),
        ) && spec_contains_addr(signers@.map_values(|s: SignerIdentity| s.address), fee_payer@)),
{
    let mut signer_addrs: Vec<Address> = Vec::new();
    let mut i: usize = 0;
    while i < signers.len()
        invariant
            i <= signers@.len(),
            signer_addrs@ == signers@.map_values(|s: SignerIdentity| s.address).take(i as int),
        decreases signers.len() - i,
    {
        signer_addrs.push(signers[i].address);
        proof {
            let m = signers@.map_values(|s: SignerIdentity| s.address);
            assert(m.take((i + 1) as int) =~= m.take(i as int).push(m[i as int]));
        }
        i = i + 1;
    }
    proof {
        let m = signers@.map_values(|s: SignerIdentity| s.address);
        assert(m.take(m.len() as int) =~= m);
    }
    if !check_sequence(ops) {
        return Err(ProvisionError::OrderingViolation);
    }
    if !crate::identity::contains_addr(&signer_addrs, fee_payer) {
        return Err(ProvisionError::MissingAuthority);
    }
    if !check_signatures(ops, &signer_addrs) {
        return Err(ProvisionError::MissingAuthority);
    }
    let mut instructions: Vec<Instruction> = Vec::new();
    let mut j: usize = 0;
    while j < ops.len()
        invariant
            j <= ops@.len(),
            ops@.len() <= 31,
            forall|k: int| 0 <= k < ops@.len() ==> op_wf(#[trigger] ops@[k]),
            instructions@ == instructions_of(ops@).take(j as int),
        decreases ops.len() - j,
    {
        instructions.push(ops[j].ix.clone());
        proof {
            let m = instructions_of(ops@);
            assert(m.take((j + 1) as int) =~= m.take(j as int).push(m[j as int]));
        }
        j = j + 1;
    }
    proof {
        let m = instructions_of(ops@);
        assert(m.take(m.len() as int) =~= m);
        assert forall|k: int| 0 <= k < instructions@.len() implies protocol::ix_account_count(
            #[trigger] instructions@[k],
        ) <= 7 by {
            assert(instructions@[k] == ops@[k].ix);
            assert(op_wf(ops@[k]));
        }
    }
    let mut tx = protocol::new_transaction(&instructions, fee_payer);
    match protocol::sign_transaction(&mut tx, signers, recent) {
        Ok(()) => Ok(tx),
        Err(e) => Err(e),
    }
}

} // verus!
