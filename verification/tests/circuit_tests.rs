use plonk_xor::circuit::{
    Bit, Constraint, ConstraintSystem, LinearCombination, SynthesisError, Term, Variable,
    XorCircuit,
};

fn value_of(cs: &ConstraintSystem, var: Variable) -> i64 {
    let slot = match var {
        Variable::Input(i) => cs.inputs().get(i),
        Variable::Aux(i) => cs.aux().get(i),
    };
    match slot {
        Some(Some(true)) => 1,
        _ => 0,
    }
}

fn eval(cs: &ConstraintSystem, lc: &LinearCombination) -> i64 {
    lc.terms.iter().map(|t| t.coeff * value_of(cs, t.var)).sum()
}

fn holds(cs: &ConstraintSystem, c: &Constraint, modulus: i64) -> bool {
    (eval(cs, &c.a) * eval(cs, &c.b) - eval(cs, &c.c)).rem_euclid(modulus) == 0
}

fn satisfied(cs: &ConstraintSystem, modulus: i64) -> bool {
    cs.constraints().iter().all(|c| holds(cs, c, modulus))
}

fn proving_pass(a: bool, b: bool, c: bool) -> ConstraintSystem {
    let mut cs = ConstraintSystem::new(true);
    let circuit = XorCircuit { a: Some(a), b: Some(b), c: Some(c) };
    assert_eq!(circuit.synthesize(&mut cs), Ok(()));
    cs
}

fn terms(lc: &LinearCombination) -> Vec<(i64, Variable)> {
    lc.terms.iter().map(|t| (t.coeff, t.var)).collect()
}

#[test]
fn fresh_system_holds_only_the_constant_one() {
    let cs = ConstraintSystem::new(true);
    assert!(cs.witness_required());
    assert_eq!(cs.inputs(), &vec![Some(true)]);
    assert!(cs.aux().is_empty());
    assert!(cs.constraints().is_empty());
    assert_eq!(ConstraintSystem::one(), Variable::Input(0));
}

#[test]
fn satisfied_exactly_when_c_is_a_xor_b() {
    for a in [false, true] {
        for b in [false, true] {
            for c in [false, true] {
                let cs = proving_pass(a, b, c);
                for modulus in [2i64, 3, 7, 2147483647] {
                    assert_eq!(satisfied(&cs, modulus), c == (a ^ b));
                }
            }
        }
    }
}

#[test]
fn true_xor_true_is_false() {
    assert!(satisfied(&proving_pass(true, true, false), 7));
    assert!(!satisfied(&proving_pass(true, true, true), 7));
}

#[test]
fn false_xor_true_is_true() {
    assert!(satisfied(&proving_pass(false, true, true), 7));
    assert!(!satisfied(&proving_pass(false, true, false), 7));
}

#[test]
fn only_the_output_constraint_can_fail() {
    let cs = proving_pass(true, false, false);
    let failing: Vec<usize> = cs
        .constraints()
        .iter()
        .enumerate()
        .filter(|(_, c)| !holds(&cs, c, 5))
        .map(|(i, _)| i)
        .collect();
    assert_eq!(failing, vec![6]);
}

#[test]
fn synthesis_lays_out_variables_and_constraints() {
    let cs = proving_pass(true, false, true);
    assert_eq!(cs.inputs(), &vec![Some(true), Some(true), Some(false)]);
    assert_eq!(
        cs.aux(),
        &vec![Some(false), Some(true), Some(false), Some(true), Some(true)]
    );
    let k = cs.constraints();
    assert_eq!(k.len(), 7);
    let one = Variable::Input(0);
    let zero = Variable::Aux(0);
    // a is a bit
    assert_eq!(terms(&k[0].a), vec![(1, one), (-1, Variable::Aux(1))]);
    assert_eq!(terms(&k[0].b), vec![(1, Variable::Aux(1))]);
    assert_eq!(terms(&k[0].c), vec![(1, zero)]);
    // a is public
    assert_eq!(terms(&k[1].a), vec![(1, Variable::Input(1))]);
    assert_eq!(terms(&k[1].b), vec![(1, one)]);
    assert_eq!(terms(&k[1].c), vec![(1, Variable::Aux(1))]);
    // b is a bit, and public
    assert_eq!(terms(&k[2].a), vec![(1, one), (-1, Variable::Aux(2))]);
    assert_eq!(terms(&k[3].a), vec![(1, Variable::Input(2))]);
    assert_eq!(terms(&k[3].c), vec![(1, Variable::Aux(2))]);
    // (a + a) * b = a + b - x
    assert_eq!(terms(&k[4].a), vec![(1, Variable::Aux(1)), (1, Variable::Aux(1))]);
    assert_eq!(terms(&k[4].b), vec![(1, Variable::Aux(2))]);
    assert_eq!(
        terms(&k[4].c),
        vec![(1, Variable::Aux(1)), (1, Variable::Aux(2)), (-1, Variable::Aux(3))]
    );
    // c is a bit
    assert_eq!(terms(&k[5].a), vec![(1, one), (-1, Variable::Aux(4))]);
    assert_eq!(terms(&k[5].c), vec![(1, zero)]);
    // x * 1 = c
    assert_eq!(terms(&k[6].a), vec![(1, Variable::Aux(3))]);
    assert_eq!(terms(&k[6].b), vec![(1, one)]);
    assert_eq!(terms(&k[6].c), vec![(1, Variable::Aux(4))]);
}

#[test]
fn setup_pass_tolerates_absent_values() {
    let mut cs = ConstraintSystem::new(false);
    let shape = XorCircuit { a: None, b: None, c: None };
    assert_eq!(shape.synthesize(&mut cs), Ok(()));
    assert_eq!(cs.inputs().len(), 3);
    assert_eq!(cs.aux().len(), 5);
    assert_eq!(cs.constraints().len(), 7);
    assert_eq!(cs.aux()[3], None);
}

#[test]
fn proving_pass_demands_every_value() {
    for circuit in [
        XorCircuit { a: None, b: Some(true), c: Some(true) },
        XorCircuit { a: Some(true), b: None, c: Some(true) },
        XorCircuit { a: Some(true), b: Some(true), c: None },
        XorCircuit { a: None, b: None, c: None },
    ] {
        let mut cs = ConstraintSystem::new(true);
        assert_eq!(circuit.synthesize(&mut cs), Err(SynthesisError::AssignmentMissing));
    }
}

#[test]
fn setup_and_proving_passes_have_the_same_shape() {
    let mut setup = ConstraintSystem::new(false);
    assert_eq!(XorCircuit { a: None, b: None, c: None }.synthesize(&mut setup), Ok(()));
    let proving = proving_pass(true, true, false);
    assert_eq!(setup.inputs().len(), proving.inputs().len());
    assert_eq!(setup.aux().len(), proving.aux().len());
    assert_eq!(setup.constraints().len(), proving.constraints().len());
    for (s, p) in setup.constraints().iter().zip(proving.constraints().iter()) {
        assert_eq!(terms(&s.a), terms(&p.a));
        assert_eq!(terms(&s.b), terms(&p.b));
        assert_eq!(terms(&s.c), terms(&p.c));
    }
}

#[test]
fn synthesis_is_repeatable() {
    let first = proving_pass(false, true, true);
    let second = proving_pass(false, true, true);
    assert_eq!(first.inputs(), second.inputs());
    assert_eq!(first.aux(), second.aux());
    assert_eq!(first.constraints().len(), second.constraints().len());
}

#[test]
fn allocate_adds_one_variable_and_the_bit_constraint() {
    let mut cs = ConstraintSystem::new(true);
    let zero = cs.alloc_aux(Some(false)).unwrap();
    let bit = Bit::allocate(Some(true), &mut cs, zero).unwrap();
    assert_eq!(bit.var, Variable::Aux(1));
    assert_eq!(bit.value, Some(true));
    assert_eq!(cs.constraints().len(), 1);
    assert!(satisfied(&cs, 11));
    assert_eq!(
        Bit::allocate(None, &mut cs, zero).map(|b| b.var),
        Err(SynthesisError::AssignmentMissing)
    );
    assert_eq!(cs.aux().len(), 2);
    assert_eq!(cs.constraints().len(), 1);
}

#[test]
fn inputize_adds_an_input_equal_to_the_bit() {
    let mut cs = ConstraintSystem::new(true);
    let zero = cs.alloc_aux(Some(false)).unwrap();
    let bit = Bit::allocate(Some(true), &mut cs, zero).unwrap();
    assert_eq!(bit.inputize(&mut cs), Ok(()));
    assert_eq!(cs.inputs(), &vec![Some(true), Some(true)]);
    assert_eq!(terms(&cs.constraints()[1].a), vec![(1, Variable::Input(1))]);
    assert!(satisfied(&cs, 11));
}

#[test]
fn xor_of_bits() {
    for (x, y) in [(false, false), (false, true), (true, false), (true, true)] {
        let mut cs = ConstraintSystem::new(true);
        let zero = cs.alloc_aux(Some(false)).unwrap();
        let a = Bit::allocate(Some(x), &mut cs, zero).unwrap();
        let b = Bit::allocate(Some(y), &mut cs, zero).unwrap();
        let c = a.xor(&b, &mut cs).unwrap();
        assert_eq!(c.value, Some(x ^ y));
        assert_eq!(c.var, Variable::Aux(3));
        assert!(satisfied(&cs, 13));
    }
}

#[test]
fn xor_with_an_absent_value_is_absent() {
    let mut cs = ConstraintSystem::new(false);
    let zero = cs.alloc_aux(Some(false)).unwrap();
    let a = Bit::allocate(Some(true), &mut cs, zero).unwrap();
    let b = Bit::allocate(None, &mut cs, zero).unwrap();
    let c = a.xor(&b, &mut cs).unwrap();
    assert_eq!(c.value, None);
}

#[test]
fn linear_combination_keeps_terms_in_order() {
    let lc = LinearCombination::zero()
        .plus(Variable::Input(0))
        .minus(Variable::Aux(2))
        .plus(Variable::Aux(2));
    assert_eq!(
        lc.terms,
        vec![
            Term { coeff: 1, var: Variable::Input(0) },
            Term { coeff: -1, var: Variable::Aux(2) },
            Term { coeff: 1, var: Variable::Aux(2) },
        ]
    );
}

#[test]
fn shape_has_no_values_and_witness_has_all() {
    let shape = XorCircuit::shape();
    assert_eq!((shape.a, shape.b, shape.c), (None, None, None));
    let witness = XorCircuit::witness(true, false, true);
    assert_eq!((witness.a, witness.b, witness.c), (Some(true), Some(false), Some(true)));
    let mut cs = ConstraintSystem::new(true);
    assert_eq!(witness.synthesize(&mut cs), Ok(()));
    assert!(satisfied(&cs, 3));
}

#[test]
fn a_second_circuit_in_the_same_system() {
    for (first_ok, second_ok) in [(true, true), (true, false), (false, true), (false, false)] {
        let mut cs = ConstraintSystem::new(true);
        assert_eq!(XorCircuit::witness(true, false, first_ok).synthesize(&mut cs), Ok(()));
        assert_eq!(XorCircuit::witness(true, true, !second_ok).synthesize(&mut cs), Ok(()));
        assert_eq!(cs.inputs().len(), 5);
        assert_eq!(cs.aux().len(), 10);
        assert_eq!(cs.constraints().len(), 14);
        assert_eq!(satisfied(&cs, 7), first_ok && second_ok);
        let allocated = |lc: &LinearCombination| {
            lc.terms.iter().all(|t| match t.var {
                Variable::Input(i) => i < cs.inputs().len(),
                Variable::Aux(i) => i < cs.aux().len(),
            })
        };
        assert!(cs.constraints().iter().all(|c| allocated(&c.a) && allocated(&c.b) && allocated(&c.c)));
    }
}
