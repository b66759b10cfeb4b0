use ark_bls12_381::Bls12_381;
use ark_crypto_primitives::crh::injective_map::constraints::{
    PedersenCRHCompressorGadget, TECompressorGadget,
};
use ark_crypto_primitives::crh::injective_map::{PedersenCRHCompressor, TECompressor};
use ark_crypto_primitives::crh::pedersen;
use ark_crypto_primitives::crh::{CRH, CRHGadget, TwoToOneCRH, TwoToOneCRHGadget};
use ark_crypto_primitives::merkle_tree::Config;
use ark_crypto_primitives::{MerkleTree, Path, PathVar, SNARK};
use ark_ed_on_bls12_381::{EdwardsProjective, Fq, constraints::EdwardsVar};
use ark_groth16::Groth16;
use ark_r1cs_std::alloc::AllocVar;
use ark_r1cs_std::eq::EqGadget;
use ark_r1cs_std::fields::fp::FpVar;
use ark_r1cs_std::prelude::Boolean;
use ark_relations::r1cs::{ConstraintSynthesizer, SynthesisError};
use ark_serialize::{CanonicalDeserialize, CanonicalSerialize};

use zkmember::codec::{from_hex, to_hex};
use zkmember::member::Member;

#[derive(Clone)]
struct LeafWindow;
impl pedersen::Window for LeafWindow {
    const WINDOW_SIZE: usize = 4;
    const NUM_WINDOWS: usize = 144;
}

#[derive(Clone)]
struct TwoToOneWindow;
impl pedersen::Window for TwoToOneWindow {
    const WINDOW_SIZE: usize = 4;
    const NUM_WINDOWS: usize = 128;
}

type LeafHash = PedersenCRHCompressor<EdwardsProjective, TECompressor, LeafWindow>;
type TwoToOneHash = PedersenCRHCompressor<EdwardsProjective, TECompressor, TwoToOneWindow>;

type LeafHashGadget =
    PedersenCRHCompressorGadget<EdwardsProjective, TECompressor, LeafWindow, EdwardsVar, TECompressorGadget>;
type TwoToOneHashGadget = PedersenCRHCompressorGadget<
    EdwardsProjective,
    TECompressor,
    TwoToOneWindow,
    EdwardsVar,
    TECompressorGadget,
>;

type LeafHashParamsVar = <LeafHashGadget as CRHGadget<LeafHash, Fq>>::ParametersVar;
type TwoToOneHashParamsVar = <TwoToOneHashGadget as TwoToOneCRHGadget<TwoToOneHash, Fq>>::ParametersVar;
type RootVar = <TwoToOneHashGadget as TwoToOneCRHGadget<TwoToOneHash, Fq>>::OutputVar;

#[derive(Clone)]
struct OutsideConfig;
impl Config for OutsideConfig {
    type LeafHash = LeafHash;
    type TwoToOneHash = TwoToOneHash;
}

type SimplePathVar = PathVar<OutsideConfig, LeafHashGadget, TwoToOneHashGadget, Fq>;

#[derive(Clone)]
struct Groth16Circuit<'a> {
    leaf_crh_params: &'a <LeafHash as CRH>::Parameters,
    two_to_one_crh_params: &'a <TwoToOneHash as TwoToOneCRH>::Parameters,
    root: Fq,
    leaf_hash: Fq,
    authentication_path: Option<Path<OutsideConfig>>,
}

impl<'a> ConstraintSynthesizer<Fq> for Groth16Circuit<'a> {
    fn generate_constraints(
        self,
        cs: ark_relations::r1cs::ConstraintSystemRef<Fq>,
    ) -> ark_relations::r1cs::Result<()> {
        let leaf_crh_params = LeafHashParamsVar::new_constant(cs.clone(), self.leaf_crh_params)?;
        let two_to_one_crh_params =
            TwoToOneHashParamsVar::new_constant(cs.clone(), self.two_to_one_crh_params)?;

        let root = RootVar::new_input(cs.clone(), || Ok(&self.root))?;
        let hashed_leaf: FpVar<Fq> = FpVar::new_input(cs.clone(), || Ok(&self.leaf_hash))?;

        let path: SimplePathVar = SimplePathVar::new_witness(cs.clone(), || {
            self.authentication_path
                .as_ref()
                .ok_or(SynthesisError::AssignmentMissing)
        })?;

        let is_member: Boolean<Fq> =
            path.verify_membership(&leaf_crh_params, &two_to_one_crh_params, &root, &hashed_leaf)?;

        is_member.enforce_equal(&Boolean::TRUE)?;

        Ok(())
    }
}

#[test]
fn mod_test_groth16_snark() {
    // Set up RNG
    let mut rng = ark_std::test_rng();

    // Generate CRH parameters
    let leaf_crh_params = <LeafHash as CRH>::setup(&mut rng).unwrap();
    let two_to_one_crh_params = <TwoToOneHash as TwoToOneCRH>::setup(&mut rng).unwrap();

    // Create some test members
    let members = vec![
        Member::new("alice".into(), "alice@usc.edu".into(), None),
        Member::new("bob".into(), "bob@usc.edu".into(), None),
        Member::new("carol".into(), "carol@usc.edu".into(), None),
    ];

    // Create Merkle tree over the members' leaf hashes, padded to four
    let mut leaves: Vec<Fq> = members
        .iter()
        .map(|member| <LeafHash as CRH>::evaluate(&leaf_crh_params, &member.to_bytes()).unwrap())
        .collect();
    let sentinel =
        <LeafHash as CRH>::evaluate(&leaf_crh_params, &Member::default().to_bytes()).unwrap();
    leaves.push(sentinel);

    let tree: MerkleTree<OutsideConfig> =
        MerkleTree::new(&leaf_crh_params, &two_to_one_crh_params, &leaves).unwrap();
    let root = tree.root();

    // Generate proof for bob (index 1)
    let merkle_path = tree.generate_proof(1).unwrap();

    // Create circuit
    let circuit = Groth16Circuit {
        leaf_crh_params: &leaf_crh_params,
        two_to_one_crh_params: &two_to_one_crh_params,
        root,
        leaf_hash: leaves[1],
        authentication_path: Some(merkle_path),
    };

    // Generate proving and verifying keys
    let (pk, vk) = Groth16::<Bls12_381>::circuit_specific_setup(circuit.clone(), &mut rng)
        .expect("setup failed");

    // Create the proof
    let proof = Groth16::<Bls12_381>::prove(&pk, circuit.clone(), &mut rng).unwrap();

    // Calculate public inputs: the root, then the leaf hash, in that order
    let public_inputs = vec![root, leaves[1]];

    // Verify the proof
    let verified =
        Groth16::<Bls12_381>::verify(&vk, &public_inputs, &proof).expect("verification failed");

    assert!(verified, "SNARK proof verification failed");

    // Transport round trip: proof and verifying key, serialized to
    // canonical bytes and carried as hex, come back unchanged.
    let mut proof_bytes = Vec::new();
    proof.serialize(&mut proof_bytes).unwrap();
    let proof_again = from_hex(to_hex(proof_bytes.as_slice()).as_str()).unwrap();
    assert_eq!(proof_again, proof_bytes);
    let restored = ark_groth16::Proof::<Bls12_381>::deserialize(proof_again.as_slice()).unwrap();
    assert_eq!(restored, proof);

    let mut vk_bytes = Vec::new();
    vk.serialize(&mut vk_bytes).unwrap();
    let vk_again = from_hex(to_hex(vk_bytes.as_slice()).as_str()).unwrap();
    assert_eq!(vk_again, vk_bytes);
    let vk_restored =
        ark_groth16::VerifyingKey::<Bls12_381>::deserialize(vk_again.as_slice()).unwrap();
    assert!(Groth16::<Bls12_381>::verify(&vk_restored, &public_inputs, &restored).unwrap());
}
