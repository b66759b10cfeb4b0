use ark_crypto_primitives::crh::injective_map::constraints::{
    PedersenCRHCompressorGadget, TECompressorGadget,
};
use ark_crypto_primitives::crh::injective_map::{PedersenCRHCompressor, TECompressor};
use ark_crypto_primitives::crh::pedersen;
use ark_crypto_primitives::crh::{CRH, CRHGadget, TwoToOneCRH, TwoToOneCRHGadget};
use ark_crypto_primitives::merkle_tree::Config;
use ark_crypto_primitives::{MerkleTree, Path, PathVar};
use ark_ed_on_bw6_761::{EdwardsProjective, Fq, constraints::EdwardsVar};
use ark_r1cs_std::alloc::AllocVar;
use ark_r1cs_std::eq::EqGadget;
use ark_r1cs_std::prelude::Boolean;
use ark_relations::r1cs::{ConstraintSynthesizer, ConstraintSystem, SynthesisError};

use zkmember::member::Member;

#[derive(Clone)]
struct LeafWindow;
impl pedersen::Window for LeafWindow {
    const WINDOW_SIZE: usize = 4;
    const NUM_WINDOWS: usize = 192;
}

#[derive(Clone)]
struct TwoToOneWindow;
impl pedersen::Window for TwoToOneWindow {
    const WINDOW_SIZE: usize = 4;
    const NUM_WINDOWS: usize = 192;
}

type LeafHash = PedersenCRHCompressor<EdwardsProjective, TECompressor, LeafWindow>;
type TwoToOneHash = PedersenCRHCompressor<EdwardsProjective, TECompressor, TwoToOneWindow>;

type LeafHashGadget =
    PedersenCRHCompressorGadget<EdwardsProjective, TECompressor, LeafWindow, EdwardsVar, TECompressorGadget>;
type TwoToOneHashGadget = PedersenCRHCompressorGadget<
    EdwardsProjective,
    TECompressor,
    TwoToOneWindow,
    EdwardsVar,
    TECompressorGadget,
>;

type LeafHashParamsVar = <LeafHashGadget as CRHGadget<LeafHash, Fq>>::ParametersVar;
type TwoToOneHashParamsVar = <TwoToOneHashGadget as TwoToOneCRHGadget<TwoToOneHash, Fq>>::ParametersVar;
type RootVar = <TwoToOneHashGadget as TwoToOneCRHGadget<TwoToOneHash, Fq>>::OutputVar;
type LeafVar = <LeafHashGadget as CRHGadget<LeafHash, Fq>>::OutputVar;

#[derive(Clone)]
struct MerkleConfig;
impl Config for MerkleConfig {
    type LeafHash = LeafHash;
    type TwoToOneHash = TwoToOneHash;
}

type MerklePathVar = PathVar<MerkleConfig, LeafHashGadget, TwoToOneHashGadget, Fq>;

struct TestCircuit<'a> {
    leaf_crh_params: &'a <LeafHash as CRH>::Parameters,
    two_to_one_crh_params: &'a <TwoToOneHash as TwoToOneCRH>::Parameters,
    root: Fq,
    leaf_hash: Fq,
    authentication_path: Option<Path<MerkleConfig>>,
}

impl<'a> ConstraintSynthesizer<Fq> for TestCircuit<'a> {
    fn generate_constraints(
        self,
        cs: ark_relations::r1cs::ConstraintSystemRef<Fq>,
    ) -> ark_relations::r1cs::Result<()> {
        // Allocate parameters as constants
        let leaf_crh_params = LeafHashParamsVar::new_constant(cs.clone(), self.leaf_crh_params)?;
        let two_to_one_crh_params =
            TwoToOneHashParamsVar::new_constant(cs.clone(), self.two_to_one_crh_params)?;

        // Allocate public inputs
        let root = RootVar::new_input(cs.clone(), || Ok(&self.root))?;
        let hashed_leaf: LeafVar = LeafVar::new_input(cs.clone(), || Ok(&self.leaf_hash))?;

        // Allocate path as witness
        let path: MerklePathVar = MerklePathVar::new_witness(cs.clone(), || {
            self.authentication_path
                .as_ref()
                .ok_or(SynthesisError::AssignmentMissing)
        })?;

        let is_member: Boolean<Fq> =
            path.verify_membership(&leaf_crh_params, &two_to_one_crh_params, &root, &hashed_leaf)?;

        is_member.enforce_equal(&Boolean::TRUE)?;

        Ok(())
    }
}

fn setup() -> (
    <LeafHash as CRH>::Parameters,
    <TwoToOneHash as TwoToOneCRH>::Parameters,
) {
    let mut rng = ark_std::test_rng();
    let leaf_crh_params = <LeafHash as CRH>::setup(&mut rng).unwrap();
    let two_to_one_crh_params = <TwoToOneHash as TwoToOneCRH>::setup(&mut rng).unwrap();
    (leaf_crh_params, two_to_one_crh_params)
}

fn hash_members(
    leaf_crh_params: &<LeafHash as CRH>::Parameters,
    members: &[Member],
) -> Vec<Fq> {
    members
        .iter()
        .map(|m| <LeafHash as CRH>::evaluate(leaf_crh_params, &m.to_bytes()).unwrap())
        .collect()
}

#[test]
fn constraint_merkle_tree_constraints_correctness() {
    let (leaf_crh_params, two_to_one_crh_params) = setup();

    let members = vec![
        Member::new("1".into(), "1@usc.edu".into(), None),
        Member::new("2".into(), "2@usc.edu".into(), None),
    ];
    let leaves = hash_members(&leaf_crh_params, &members);

    let tree: MerkleTree<MerkleConfig> =
        MerkleTree::new(&leaf_crh_params, &two_to_one_crh_params, &leaves).unwrap();

    let path = tree.generate_proof(1).unwrap();
    let root = tree.root();

    let circuit = TestCircuit {
        leaf_crh_params: &leaf_crh_params,
        two_to_one_crh_params: &two_to_one_crh_params,
        root,
        leaf_hash: leaves[1],
        authentication_path: Some(path),
    };

    let cs = ConstraintSystem::new_ref();
    circuit.generate_constraints(cs.clone()).unwrap();

    println!("Public inputs: {}", cs.num_instance_variables());
    println!("Private witnesses: {}", cs.num_witness_variables());
    println!("Total constraints: {}", cs.num_constraints());

    let is_satisfied = cs.is_satisfied().unwrap();
    if !is_satisfied {
        println!("{:?}", cs.which_is_unsatisfied());
    }
    assert!(is_satisfied);
}

#[test]
fn constraint_merkle_tree_constraints_soundness() {
    let (leaf_crh_params, two_to_one_crh_params) = setup();

    let organization1: Vec<Member> = (1..=8u32)
        .map(|i| Member::new(i.to_string(), format!("{}@usc.edu", i), None))
        .collect();
    let mut organization2 = vec![Member::new("9".into(), "9@usc.edu".into(), None)];
    for i in 2..=8u32 {
        organization2.push(Member::new(i.to_string(), format!("{}@usc.edu", i), None));
    }

    let org1_leaves = hash_members(&leaf_crh_params, &organization1);
    let org2_leaves = hash_members(&leaf_crh_params, &organization2);

    let tree: MerkleTree<MerkleConfig> =
        MerkleTree::new(&leaf_crh_params, &two_to_one_crh_params, &org1_leaves).unwrap();

    // We just mutate the first leaf
    let second_tree: MerkleTree<MerkleConfig> =
        MerkleTree::new(&leaf_crh_params, &two_to_one_crh_params, &org2_leaves).unwrap();

    let proof = tree.generate_proof(4).unwrap();

    // But, let's get the root we want to verify against:
    let wrong_root = second_tree.root();

    let circuit = TestCircuit {
        leaf_crh_params: &leaf_crh_params,
        two_to_one_crh_params: &two_to_one_crh_params,
        root: wrong_root,
        leaf_hash: org1_leaves[4],
        authentication_path: Some(proof),
    };

    let cs = ConstraintSystem::new_ref();
    circuit.generate_constraints(cs.clone()).unwrap();

    println!("Public inputs: {}", cs.num_instance_variables());
    println!("Private witnesses: {}", cs.num_witness_variables());
    println!("Total constraints: {}", cs.num_constraints());

    let is_satisfied = cs.is_satisfied().unwrap();
    // We expect this to fail!
    assert!(!is_satisfied);
}
