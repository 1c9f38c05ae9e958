use ark_bls12_381::Bls12_381;
use ark_bls12_381::Fr;
use ark_groth16::Groth16;
use ark_relations::r1cs::ConstraintSynthesizer;
use ark_relations::r1cs::ConstraintSystemRef;
use ark_relations::r1cs::SynthesisError;
use ark_snark::SNARK;
use ark_std::rand::rngs::StdRng;
use ark_std::rand::SeedableRng;
use zkp_dsa_r1cs::backend::ConstraintStore;
use zkp_dsa_r1cs::circuit::DSAVerificationCircuit;
use zkp_dsa_r1cs::error::CircuitError;

#[derive(Clone)]
struct Synthesizer {
    circuit: DSAVerificationCircuit,
}

impl ConstraintSynthesizer<Fr> for Synthesizer {
    fn generate_constraints(self, cs: ConstraintSystemRef<Fr>) -> Result<(), SynthesisError> {
        let mut store = ConstraintStore { system: cs };
        match self.circuit.generate_constraints(&mut store) {
            Ok(()) => Ok(()),
            Err(CircuitError::NoInverse) => Err(SynthesisError::AssignmentMissing),
            Err(CircuitError::ZeroModulus) => Err(SynthesisError::DivisionByZero),
            Err(CircuitError::Exhausted) => Err(SynthesisError::Unsatisfiable),
            Err(CircuitError::Backend(e)) => Err(e),
        }
    }
}

fn inputs(circuit: &DSAVerificationCircuit) -> Vec<Fr> {
    vec![
        Fr::from(circuit.y),
        Fr::from(circuit.h_x),
        Fr::from(circuit.r),
        Fr::from(circuit.s),
        Fr::from(circuit.p),
        Fr::from(circuit.q),
        Fr::from(circuit.g),
    ]
}

#[test]
fn test_dsa_verification() {
    let mut rng = StdRng::seed_from_u64(0u64);
    let circuit = Synthesizer {
        circuit: DSAVerificationCircuit { y: 3, h_x: 2, r: 2, s: 2, p: 7, q: 3, g: 3 },
    };
    let pk_vk = Groth16::<Bls12_381>::circuit_specific_setup(circuit.clone(), &mut rng)
        .expect("Setup failed");
    let (pk, vk) = pk_vk;
    let proof =
        Groth16::<Bls12_381>::prove(&pk, circuit.clone(), &mut rng).expect("Proving failed");
    let public_inputs = vec![
        Fr::from(circuit.circuit.y),
        Fr::from(circuit.circuit.h_x),
        Fr::from(circuit.circuit.r),
        Fr::from(circuit.circuit.s),
        Fr::from(circuit.circuit.p),
        Fr::from(circuit.circuit.q),
        Fr::from(circuit.circuit.g),
    ];
    let is_valid =
        Groth16::<Bls12_381>::verify(&vk, &public_inputs, &proof).expect("Verification failed");
    assert!(is_valid, "Proof verification should succeed");
}

#[test]
fn proofs_of_two_seeds_differ_and_both_verify() {
    let circuit = Synthesizer {
        circuit: DSAVerificationCircuit { y: 8, h_x: 7, r: 9, s: 9, p: 23, q: 11, g: 2 },
    };
    let mut first = StdRng::seed_from_u64(1u64);
    let (pk, vk) =
        Groth16::<Bls12_381>::circuit_specific_setup(circuit.clone(), &mut first).unwrap();
    let one = Groth16::<Bls12_381>::prove(&pk, circuit.clone(), &mut first).unwrap();
    let mut second = StdRng::seed_from_u64(2u64);
    let two = Groth16::<Bls12_381>::prove(&pk, circuit.clone(), &mut second).unwrap();
    assert!(one != two);
    let public_inputs = inputs(&circuit.circuit);
    assert_eq!(Groth16::<Bls12_381>::verify(&vk, &public_inputs, &one), Ok(true));
    assert_eq!(Groth16::<Bls12_381>::verify(&vk, &public_inputs, &two), Ok(true));
}

#[test]
fn a_tampered_public_input_fails_verification() {
    let circuit = Synthesizer {
        circuit: DSAVerificationCircuit { y: 8, h_x: 7, r: 9, s: 9, p: 23, q: 11, g: 2 },
    };
    let mut rng = StdRng::seed_from_u64(3u64);
    let (pk, vk) = Groth16::<Bls12_381>::circuit_specific_setup(circuit.clone(), &mut rng).unwrap();
    let proof = Groth16::<Bls12_381>::prove(&pk, circuit.clone(), &mut rng).unwrap();
    let public_inputs = inputs(&circuit.circuit);
    assert_eq!(Groth16::<Bls12_381>::verify(&vk, &public_inputs, &proof), Ok(true));
    for position in 0..7 {
        let mut tampered = public_inputs.clone();
        tampered[position] += Fr::from(1u64);
        assert_eq!(Groth16::<Bls12_381>::verify(&vk, &tampered, &proof), Ok(false));
    }
}

#[test]
fn setup_fails_without_an_inverse() {
    let circuit = Synthesizer {
        circuit: DSAVerificationCircuit { y: 3, h_x: 2, r: 2, s: 3, p: 7, q: 3, g: 3 },
    };
    let mut rng = StdRng::seed_from_u64(0u64);
    let outcome = Groth16::<Bls12_381>::circuit_specific_setup(circuit, &mut rng);
    assert_eq!(outcome.err(), Some(SynthesisError::AssignmentMissing));
}
