//! The constraint system of the relation `a XOR b = c`.
//!
//! A constraint system is a list of rank-one constraints `A * B = C`, each side
//! a linear combination of variables, together with the values assigned to the
//! variables. All values that this circuit assigns are bits.

use vstd::prelude::*;

verus! {

/// Handle of one unknown of a constraint system: a public input or a private
/// (auxiliary) variable, by its position.
#[derive(Clone, Copy, Debug, PartialEq, Eq, Structural)]
pub enum Variable {
    Input(usize),
    Aux(usize),
}

/// One summand of a linear combination.
#[derive(Clone, Copy, Debug, PartialEq, Eq, Structural)]
pub struct Term {
    pub coeff: i64,
    pub var: Variable,
}

/// Why a synthesis pass stopped.
#[derive(Clone, Copy, Debug, PartialEq, Eq, Structural)]
pub enum SynthesisError {
    /// A witness was demanded and a value was absent.
    AssignmentMissing,
}

/// A sum of terms, in the order in which they were added.
#[derive(Clone, Debug)]
pub struct LinearCombination {
    pub terms: Vec<Term>,
}

impl View for LinearCombination {
    type V = Seq<Term>;

    open spec fn view(&self) -> Seq<Term> {
        self.terms@
    }
}

impl LinearCombination {
    /// The empty sum.
    pub fn zero() -> (lc: Self)
        ensures
            lc@ == Seq::<Term>::empty(),
    {
        LinearCombination { terms: Vec::new() }
    }

    /// `self + var`.
    pub fn plus(self, var: Variable) -> (lc: Self)
        ensures
            lc@ == self@.push(Term { coeff: 1, var }),
    {
        let mut terms = self.terms;
        terms.push(Term { coeff: 1, var });
        LinearCombination { terms }
    }

    /// `self - var`.
    pub fn minus(self, var: Variable) -> (lc: Self)
        ensures
            lc@ == self@.push(Term { coeff: -1i64, var }),
    {
        let mut terms = self.terms;
        terms.push(Term { coeff: -1i64, var });
        LinearCombination { terms }
    }
}

/// The mathematical content of one constraint `a * b = c`.
pub struct ConstraintView {
    pub a: Seq<Term>,
    pub b: Seq<Term>,
    pub c: Seq<Term>,
}

/// One rank-one constraint `a * b = c`.
#[derive(Clone, Debug)]
pub struct Constraint {
    pub a: LinearCombination,
    pub b: LinearCombination,
    pub c: LinearCombination,
}

impl View for Constraint {
    type V = ConstraintView;

    open spec fn view(&self) -> ConstraintView {
        ConstraintView { a: self.a@, b: self.b@, c: self.c@ }
    }
}

/// The number that a bit stands for; an absent value counts as 0.
pub open spec fn bit_value(v: Option<bool>) -> int {
    if v == Some(true) {
        1
    } else {
        0
    }
}

/// The value assigned to `var`; a variable that was never allocated counts as 0.
pub open spec fn var_value(inputs: Seq<Option<bool>>, aux: Seq<Option<bool>>, var: Variable) -> int {
    match var {
        Variable::Input(i) => if i < inputs.len() {
            bit_value(inputs[i as int])
        } else {
            0
        },
        Variable::Aux(i) => if i < aux.len() {
            bit_value(aux[i as int])
        } else {
            0
        },
    }
}

/// The sum of the first `n` terms under an assignment.
pub open spec fn eval_prefix(
    terms: Seq<Term>,
    inputs: Seq<Option<bool>>,
    aux: Seq<Option<bool>>,
    n: nat,
) -> int
    decreases n,
{
    if n == 0 || n > terms.len() {
        0
    } else {
        eval_prefix(terms, inputs, aux, (n - 1) as nat) + terms[n - 1].coeff * var_value(
            inputs,
            aux,
            terms[n - 1].var,
        )
    }
}

/// The value of a linear combination under an assignment.
pub open spec fn eval(terms: Seq<Term>, inputs: Seq<Option<bool>>, aux: Seq<Option<bool>>) -> int {
    eval_prefix(terms, inputs, aux, terms.len())
}

/// `var * (1 - var) = 0`, written as `(one - var) * var = zero`.
pub open spec fn boolean_constraint(var: Variable, zero: Variable) -> ConstraintView {
    ConstraintView {
        a: seq![Term { coeff: 1, var: Variable::Input(0) }, Term { coeff: -1i64, var }],
        b: seq![Term { coeff: 1, var }],
        c: seq![Term { coeff: 1, var: zero }],
    }
}

/// `left * one = right`.
pub open spec fn equality_constraint(left: Variable, right: Variable) -> ConstraintView {
    ConstraintView {
        a: seq![Term { coeff: 1, var: left }],
        b: seq![Term { coeff: 1, var: Variable::Input(0) }],
        c: seq![Term { coeff: 1, var: right }],
    }
}

/// `(x + x) * y = x + y - z`, which for bits `x`, `y` holds exactly when `z = x XOR y`.
pub open spec fn xor_constraint(x: Variable, y: Variable, z: Variable) -> ConstraintView {
    ConstraintView {
        a: seq![Term { coeff: 1, var: x }, Term { coeff: 1, var: x }],
        b: seq![Term { coeff: 1, var: y }],
        c: seq![Term { coeff: 1, var: x }, Term { coeff: 1, var: y }, Term { coeff: -1i64, var: z }],
    }
}

/// The XOR of two bits, absent as soon as one of them is.
pub open spec fn xor_value(x: Option<bool>, y: Option<bool>) -> Option<bool> {
    match (x, y) {
        (Some(p), Some(q)) => Some(p != q),
        _ => None,
    }
}

/// Whether `var` is among the first `inputs` inputs or the first `aux`
/// private variables.
pub open spec fn allocated(var: Variable, inputs: nat, aux: nat) -> bool {
    match var {
        Variable::Input(i) => i < inputs,
        Variable::Aux(i) => i < aux,
    }
}

/// Whether every term speaks of an allocated variable.
pub open spec fn terms_allocated(terms: Seq<Term>, inputs: nat, aux: nat) -> bool {
    forall|i: int| 0 <= i < terms.len() ==> allocated((#[trigger] terms[i]).var, inputs, aux)
}

/// Whether all three sides of a constraint speak of allocated variables only.
pub open spec fn constraint_allocated(c: ConstraintView, inputs: nat, aux: nat) -> bool {
    terms_allocated(c.a, inputs, aux) && terms_allocated(c.b, inputs, aux) && terms_allocated(
        c.c,
        inputs,
        aux,
    )
}

/// The mathematical content of a constraint system.
pub struct SystemView {
    /// Whether the pass demands a value for every variable (proving) or
    /// tolerates absent ones (setup).
    pub witness_required: bool,
    /// Values of the public inputs; position 0 is the constant one.
    pub inputs: Seq<Option<bool>>,
    /// Values of the private variables.
    pub aux: Seq<Option<bool>>,
    pub constraints: Seq<ConstraintView>,
}

impl SystemView {
    /// The system before anything was allocated: only the constant one.
    pub open spec fn fresh(witness_required: bool) -> SystemView {
        SystemView {
            witness_required,
            inputs: seq![Some(true)],
            aux: Seq::empty(),
            constraints: Seq::empty(),
        }
    }

    /// The constant one is in place and, where a witness is demanded, no value
    /// is absent.
    pub open spec fn wf(self) -> bool {
        &&& self.inputs.len() >= 1
        &&& self.inputs[0] == Some(true)
        &&& self.witness_required ==> {
            &&& forall|i: int| 0 <= i < self.inputs.len() ==> (#[trigger] self.inputs[i]).is_some()
            &&& forall|i: int| 0 <= i < self.aux.len() ==> (#[trigger] self.aux[i]).is_some()
        }
    }

    /// Whether `value` may be assigned in this pass.
    pub open spec fn admits(self, value: Option<bool>) -> bool {
        self.witness_required ==> value.is_some()
    }

    pub open spec fn with_aux(self, value: Option<bool>) -> SystemView {
        SystemView { aux: self.aux.push(value), ..self }
    }

    pub open spec fn with_input(self, value: Option<bool>) -> SystemView {
        SystemView { inputs: self.inputs.push(value), ..self }
    }

    pub open spec fn with_constraint(self, c: ConstraintView) -> SystemView {
        SystemView { constraints: self.constraints.push(c), ..self }
    }

    /// `self` is `earlier` with more variables and constraints added behind.
    pub open spec fn extends(self, earlier: SystemView) -> bool {
        &&& self.witness_required == earlier.witness_required
        &&& earlier.inputs.is_prefix_of(self.inputs)
        &&& earlier.aux.is_prefix_of(self.aux)
        &&& earlier.constraints.is_prefix_of(self.constraints)
    }

    /// Every constraint speaks of variables of this system only.
    pub open spec fn closed(self) -> bool {
        forall|i: int|
            0 <= i < self.constraints.len() ==> constraint_allocated(
                #[trigger] self.constraints[i],
                self.inputs.len(),
                self.aux.len(),
            )
    }

    /// Constraint `c` holds in the field of `modulus` elements.
    pub open spec fn holds(self, c: ConstraintView, modulus: int) -> bool {
        (eval(c.a, self.inputs, self.aux) * eval(c.b, self.inputs, self.aux) - eval(
            c.c,
            self.inputs,
            self.aux,
        )) % modulus == 0
    }

    /// Every constraint holds in the field of `modulus` elements.
    pub open spec fn satisfied(self, modulus: int) -> bool {
        forall|i: int| 0 <= i < self.constraints.len() ==> self.holds(#[trigger] self.constraints[i], modulus)
    }
}

/// A collector of variables and constraints.
pub struct ConstraintSystem {
    witness_required: bool,
    inputs: Vec<Option<bool>>,
    aux: Vec<Option<bool>>,
    constraints: Vec<Constraint>,
}

impl View for ConstraintSystem {
    type V = SystemView;

    closed spec fn view(&self) -> SystemView {
        SystemView {
            witness_required: self.witness_required,
            inputs: self.inputs@,
            aux: self.aux@,
            constraints: self.constraints@.map_values(|c: Constraint| c@),
        }
    }
}

impl ConstraintSystem {
    /// An empty system; `witness_required` tells a proving pass from a setup pass.
    pub fn new(witness_required: bool) -> (cs: Self)
        ensures
            cs@ == SystemView::fresh(witness_required),
            cs@.wf(),
    {
        let mut inputs: Vec<Option<bool>> = Vec::new();
        inputs.push(Some(true));
        let cs = ConstraintSystem {
            witness_required,
            inputs,
            aux: Vec::new(),
            constraints: Vec::new(),
        };
        assert(cs@.inputs =~= seq![Some(true)]);
        assert(cs@.constraints =~= Seq::empty());
        cs
    }

    /// The constant one.
    pub fn one() -> (var: Variable)
        ensures
            var == Variable::Input(0),
    {
        Variable::Input(0)
    }

    /// Allocates a private variable holding `value`.
    pub fn alloc_aux(&mut self, value: Option<bool>) -> (r: Result<Variable, SynthesisError>)
        requires
            old(self)@.wf(),
        ensures
            final(self)@.wf(),
            r.is_ok() <==> old(self)@.admits(value),
            r.is_ok() ==> r == Ok::<Variable, SynthesisError>(
                Variable::Aux(old(self)@.aux.len() as usize),
            ) && final(self)@ == old(self)@.with_aux(value),
            r.is_err() ==> r == Err::<Variable, SynthesisError>(SynthesisError::AssignmentMissing)
                && final(self)@ == old(self)@,
    {
        if self.witness_required && value.is_none() {
            return Err(SynthesisError::AssignmentMissing);
        }
        let index = self.aux.len();
        self.aux.push(value);
        Ok(Variable::Aux(index))
    }

    /// Allocates a public input holding `value`.
    pub fn alloc_input(&mut self, value: Option<bool>) -> (r: Result<Variable, SynthesisError>)
        requires
            old(self)@.wf(),
        ensures
            final(self)@.wf(),
            r.is_ok() <==> old(self)@.admits(value),
            r.is_ok() ==> r == Ok::<Variable, SynthesisError>(
                Variable::Input(old(self)@.inputs.len() as usize),
            ) && final(self)@ == old(self)@.with_input(value),
            r.is_err() ==> r == Err::<Variable, SynthesisError>(SynthesisError::AssignmentMissing)
                && final(self)@ == old(self)@,
    {
        if self.witness_required && value.is_none() {
            return Err(SynthesisError::AssignmentMissing);
        }
        let index = self.inputs.len();
        self.inputs.push(value);
        Ok(Variable::Input(index))
    }

    /// Adds the constraint `a * b = c`.
    pub fn enforce(&mut self, a: LinearCombination, b: LinearCombination, c: LinearCombination)
        requires
            old(self)@.wf(),
        ensures
            final(self)@.wf(),
            final(self)@ == old(self)@.with_constraint(ConstraintView { a: a@, b: b@, c: c@ }),
    {
        let constraint = Constraint { a, b, c };
        self.constraints.push(constraint);
        assert(self@.constraints =~= old(self)@.constraints.push(constraint@));
    }

    /// Whether this pass demands a value for every variable.
    pub fn witness_required(&self) -> (r: bool)
        ensures
            r == self@.witness_required,
    {
        self.witness_required
    }

    /// The values of the public inputs, the constant one first.
    pub fn inputs(&self) -> (r: &Vec<Option<bool>>)
        ensures
            r@ == self@.inputs,
    {
        &self.inputs
    }

    /// The values of the private variables.
    pub fn aux(&self) -> (r: &Vec<Option<bool>>)
        ensures
            r@ == self@.aux,
    {
        &self.aux
    }

    /// The constraints, in the order in which they were enforced.
    pub fn constraints(&self) -> (r: &Vec<Constraint>)
        ensures
            r@.map_values(|c: Constraint| c@) == self@.constraints,
    {
        &self.constraints
    }
}

/// A constrained single-bit variable with the value it stands for, if known.
#[derive(Clone, Copy, Debug)]
pub struct Bit {
    pub var: Variable,
    pub value: Option<bool>,
}

impl Bit {
    /// Allocates a private variable for `value` and constrains it to a bit:
    /// `(one - var) * var = zero`, where `zero` is a variable known to be 0.
    pub fn allocate(value: Option<bool>, cs: &mut ConstraintSystem, zero: Variable) -> (r: Result<
        Bit,
        SynthesisError,
    >)
        requires
            old(cs)@.wf(),
        ensures
            final(cs)@.wf(),
            r.is_ok() <==> old(cs)@.admits(value),
            match r {
                Ok(bit) => {
                    &&& bit.value == value
                    &&& bit.var == Variable::Aux(old(cs)@.aux.len() as usize)
                    &&& final(cs)@ == old(cs)@.with_aux(value).with_constraint(
                        boolean_constraint(bit.var, zero),
                    )
                },
                Err(e) => e == SynthesisError::AssignmentMissing && final(cs)@ == old(cs)@,
            },
    {
        let var = cs.alloc_aux(value)?;
        let la = LinearCombination::zero().plus(ConstraintSystem::one()).minus(var);
        let lb = LinearCombination::zero().plus(var);
        let lc = LinearCombination::zero().plus(zero);
        proof {
            let shape = boolean_constraint(var, zero);
            assert(la@ =~= shape.a);
            assert(lb@ =~= shape.b);
            assert(lc@ =~= shape.c);
        }
        cs.enforce(la, lb, lc);
        Ok(Bit { var, value })
    }

    /// Makes the bit public: allocates an input with the same value and
    /// enforces `input * one = var`.
    pub fn inputize(&self, cs: &mut ConstraintSystem) -> (r: Result<(), SynthesisError>)
        requires
            old(cs)@.wf(),
        ensures
            final(cs)@.wf(),
            r.is_ok() <==> old(cs)@.admits(self.value),
            r.is_ok() ==> final(cs)@ == old(cs)@.with_input(self.value).with_constraint(
                equality_constraint(Variable::Input(old(cs)@.inputs.len() as usize), self.var),
            ),
            r.is_err() ==> r == Err::<(), SynthesisError>(SynthesisError::AssignmentMissing)
                && final(cs)@ == old(cs)@,
    {
        let input = cs.alloc_input(self.value)?;
        let la = LinearCombination::zero().plus(input);
        let lb = LinearCombination::zero().plus(ConstraintSystem::one());
        let lc = LinearCombination::zero().plus(self.var);
        proof {
            let shape = equality_constraint(input, self.var);
            assert(la@ =~= shape.a);
            assert(lb@ =~= shape.b);
            assert(lc@ =~= shape.c);
        }
        cs.enforce(la, lb, lc);
        Ok(())
    }

    /// Allocates the bit `self XOR other` and enforces
    /// `(self + self) * other = self + other - new`.
    pub fn xor(&self, other: &Bit, cs: &mut ConstraintSystem) -> (r: Result<Bit, SynthesisError>)
        requires
            old(cs)@.wf(),
        ensures
            final(cs)@.wf(),
            r.is_ok() <==> old(cs)@.admits(xor_value(self.value, other.value)),
            match r {
                Ok(bit) => {
                    &&& bit.value == xor_value(self.value, other.value)
                    &&& bit.var == Variable::Aux(old(cs)@.aux.len() as usize)
                    &&& final(cs)@ == old(cs)@.with_aux(bit.value).with_constraint(
                        xor_constraint(self.var, other.var, bit.var),
                    )
                },
                Err(e) => e == SynthesisError::AssignmentMissing && final(cs)@ == old(cs)@,
            },
    {
        let new_val = match (self.value, other.value) {
            (Some(p), Some(q)) => Some(p != q),
            _ => None,
        };
        let new_var = cs.alloc_aux(new_val)?;
        let la = LinearCombination::zero().plus(self.var).plus(self.var);
        let lb = LinearCombination::zero().plus(other.var);
        let lc = LinearCombination::zero().plus(self.var).plus(other.var).minus(new_var);
        proof {
            let shape = xor_constraint(self.var, other.var, new_var);
            assert(la@ =~= shape.a);
            assert(lb@ =~= shape.b);
            assert(lc@ =~= shape.c);
        }
        cs.enforce(la, lb, lc);
        Ok(Bit { var: new_var, value: new_val })
    }
}

/// The system that synthesis of `a XOR b = c` leaves behind when it starts
/// from `cs`: five private variables (zero, `a`, `b`, `a XOR b`, `c`), two
/// public inputs (`a`, `b`) and seven constraints.
pub open spec fn xor_system(cs: SystemView, a: Option<bool>, b: Option<bool>, c: Option<bool>) -> SystemView {
    let n = cs.aux.len();
    let m = cs.inputs.len();
    let zero = Variable::Aux(n as usize);
    let va = Variable::Aux((n + 1) as usize);
    let vb = Variable::Aux((n + 2) as usize);
    let vx = Variable::Aux((n + 3) as usize);
    let vc = Variable::Aux((n + 4) as usize);
    let ia = Variable::Input(m as usize);
    let ib = Variable::Input((m + 1) as usize);
    SystemView {
        witness_required: cs.witness_required,
        inputs: cs.inputs + seq![a, b],
        aux: cs.aux + seq![Some(false), a, b, xor_value(a, b), c],
        constraints: cs.constraints + seq![
            boolean_constraint(va, zero),
            equality_constraint(ia, va),
            boolean_constraint(vb, zero),
            equality_constraint(ib, vb),
            xor_constraint(va, vb, vx),
            boolean_constraint(vc, zero),
            equality_constraint(vx, vc),
        ],
    }
}

/// The relation `a XOR b = c`; each value is absent in a setup pass and
/// present in a proving pass.
#[derive(Clone, Copy, Debug)]
pub struct XorCircuit {
    pub a: Option<bool>,
    pub b: Option<bool>,
    pub c: Option<bool>,
}

impl XorCircuit {
    /// Whether all three values are present.
    pub open spec fn has_witness(self) -> bool {
        self.a.is_some() && self.b.is_some() && self.c.is_some()
    }

    /// The circuit without a witness, as a setup pass takes it.
    pub fn shape() -> (circuit: XorCircuit)
        ensures
            circuit.a.is_none() && circuit.b.is_none() && circuit.c.is_none(),
    {
        XorCircuit { a: None, b: None, c: None }
    }

    /// The circuit with all three values, as a proving pass takes it.
    pub fn witness(a: bool, b: bool, c: bool) -> (circuit: XorCircuit)
        ensures
            circuit.a == Some(a) && circuit.b == Some(b) && circuit.c == Some(c),
            circuit.has_witness(),
    {
        XorCircuit { a: Some(a), b: Some(b), c: Some(c) }
    }

    /// Emits the variables and constraints of the relation into `cs`.
    ///
    /// Fails exactly when the pass demands a witness and a value is absent;
    /// otherwise `cs` ends as `xor_system` says.
    pub fn synthesize(self, cs: &mut ConstraintSystem) -> (r: Result<(), SynthesisError>)
        requires
            old(cs)@.wf(),
        ensures
            final(cs)@.wf(),
            final(cs)@.extends(old(cs)@),
            r.is_ok() <==> (old(cs)@.witness_required ==> self.has_witness()),
            r.is_ok() ==> final(cs)@ == xor_system(old(cs)@, self.a, self.b, self.c),
            r.is_ok() && old(cs)@.closed() ==> final(cs)@.closed(),
            r.is_err() ==> r == Err::<(), SynthesisError>(SynthesisError::AssignmentMissing),
    {
        let zero = cs.alloc_aux(Some(false))?;

        let a = Bit::allocate(self.a, cs, zero)?;
        a.inputize(cs)?;

        let b = Bit::allocate(self.b, cs, zero)?;
        b.inputize(cs)?;

        let actual_c = a.xor(&b, cs)?;
        let expected_c = Bit::allocate(self.c, cs, zero)?;

        let la = LinearCombination::zero().plus(actual_c.var);
        let lb = LinearCombination::zero().plus(ConstraintSystem::one());
        let lc = LinearCombination::zero().plus(expected_c.var);
        proof {
            let shape = equality_constraint(actual_c.var, expected_c.var);
            assert(la@ =~= shape.a);
            assert(lb@ =~= shape.b);
            assert(lc@ =~= shape.c);
        }
        cs.enforce(la, lb, lc);
        proof {
            let want = xor_system(old(cs)@, self.a, self.b, self.c);
            assert(cs@.inputs =~= want.inputs);
            assert(cs@.aux =~= want.aux);
            assert(cs@.constraints =~= want.constraints);
            if old(cs)@.closed() {
                assert(cs.aux@.len() == cs.aux.len() && cs.inputs@.len() == cs.inputs.len());
                lemma_xor_system_closed(old(cs)@, self.a, self.b, self.c);
            }
        }
        Ok(())
    }
}

/// A linear combination of at most three terms is the sum of its terms.
proof fn lemma_eval_small(terms: Seq<Term>, inputs: Seq<Option<bool>>, aux: Seq<Option<bool>>)
    requires
        1 <= terms.len() <= 3,
    ensures
        terms.len() == 1 ==> eval(terms, inputs, aux) == terms[0].coeff * var_value(
            inputs,
            aux,
            terms[0].var,
        ),
        terms.len() == 2 ==> eval(terms, inputs, aux) == terms[0].coeff * var_value(
            inputs,
            aux,
            terms[0].var,
        ) + terms[1].coeff * var_value(inputs, aux, terms[1].var),
        terms.len() == 3 ==> eval(terms, inputs, aux) == terms[0].coeff * var_value(
            inputs,
            aux,
            terms[0].var,
        ) + terms[1].coeff * var_value(inputs, aux, terms[1].var) + terms[2].coeff * var_value(
            inputs,
            aux,
            terms[2].var,
        ),
{
    reveal_with_fuel(eval_prefix, 4);
}

/// Among -1, 0 and 1 only 0 is a multiple of a modulus of at least 2.
proof fn lemma_unit_residue(x: int, modulus: int)
    requires
        modulus >= 2,
        -1 <= x <= 1,
    ensures
        (x % modulus == 0) <==> x == 0,
{
    if x == 1 {
        vstd::arithmetic::div_mod::lemma_small_mod(1, modulus as nat);
    } else if x == -1 {
        vstd::arithmetic::div_mod::lemma_mod_add_multiples_vanish(-1, modulus);
        vstd::arithmetic::div_mod::lemma_small_mod((modulus - 1) as nat, modulus as nat);
    }
}

/// The value that each constraint of the circuit compares with zero, over
/// the values `x`, `y`, `z` of its variables.
proof fn lemma_constraint_values(s: SystemView, x: Variable, y: Variable, z: Variable)
    requires
        var_value(s.inputs, s.aux, Variable::Input(0)) == 1,
    ensures
        ({
            let c = boolean_constraint(x, y);
            let vx = var_value(s.inputs, s.aux, x);
            let vy = var_value(s.inputs, s.aux, y);
            eval(c.a, s.inputs, s.aux) * eval(c.b, s.inputs, s.aux) - eval(c.c, s.inputs, s.aux)
                == (1 - vx) * vx - vy
        }),
        ({
            let c = equality_constraint(x, y);
            let vx = var_value(s.inputs, s.aux, x);
            let vy = var_value(s.inputs, s.aux, y);
            eval(c.a, s.inputs, s.aux) * eval(c.b, s.inputs, s.aux) - eval(c.c, s.inputs, s.aux)
                == vx - vy
        }),
        ({
            let c = xor_constraint(x, y, z);
            let vx = var_value(s.inputs, s.aux, x);
            let vy = var_value(s.inputs, s.aux, y);
            let vz = var_value(s.inputs, s.aux, z);
            eval(c.a, s.inputs, s.aux) * eval(c.b, s.inputs, s.aux) - eval(c.c, s.inputs, s.aux)
                == (vx + vx) * vy - (vx + vy - vz)
        }),
{
    let vx = var_value(s.inputs, s.aux, x);
    let vy = var_value(s.inputs, s.aux, y);
    let vz = var_value(s.inputs, s.aux, z);
    let c = boolean_constraint(x, y);
    lemma_eval_small(c.a, s.inputs, s.aux);
    lemma_eval_small(c.b, s.inputs, s.aux);
    lemma_eval_small(c.c, s.inputs, s.aux);
    let c = equality_constraint(x, y);
    lemma_eval_small(c.a, s.inputs, s.aux);
    lemma_eval_small(c.b, s.inputs, s.aux);
    lemma_eval_small(c.c, s.inputs, s.aux);
    let c = xor_constraint(x, y, z);
    lemma_eval_small(c.a, s.inputs, s.aux);
    lemma_eval_small(c.b, s.inputs, s.aux);
    lemma_eval_small(c.c, s.inputs, s.aux);
    assert(1i64 * vx == vx);
    assert(1i64 * vy == vy);
    assert(1i64 * 1 == 1);
    assert(-1i64 * vx == -vx);
    assert(-1i64 * vz == -vz);
    assert(vx * 1 == vx);
}

/// Values assigned later do not change what a linear combination over
/// allocated variables evaluates to.
proof fn lemma_eval_prefix_extends(
    terms: Seq<Term>,
    inputs: Seq<Option<bool>>,
    aux: Seq<Option<bool>>,
    more_inputs: Seq<Option<bool>>,
    more_aux: Seq<Option<bool>>,
    n: nat,
)
    requires
        terms_allocated(terms, inputs.len(), aux.len()),
        n <= terms.len(),
    ensures
        eval_prefix(terms, inputs + more_inputs, aux + more_aux, n) == eval_prefix(
            terms,
            inputs,
            aux,
            n,
        ),
    decreases n,
{
    if n > 0 {
        lemma_eval_prefix_extends(terms, inputs, aux, more_inputs, more_aux, (n - 1) as nat);
        let t = terms[n - 1];
        assert(allocated(t.var, inputs.len(), aux.len()));
        assert(var_value(inputs + more_inputs, aux + more_aux, t.var) == var_value(
            inputs,
            aux,
            t.var,
        ));
    }
}

/// Synthesis keeps a system closed: the new constraints speak of the
/// constant one and of the new variables only.
pub proof fn lemma_xor_system_closed(
    cs: SystemView,
    a: Option<bool>,
    b: Option<bool>,
    c: Option<bool>,
)
    requires
        cs.inputs.len() >= 1,
        cs.closed(),
        cs.aux.len() + 5 <= usize::MAX,
        cs.inputs.len() + 2 <= usize::MAX,
    ensures
        xor_system(cs, a, b, c).closed(),
{
    let s = xor_system(cs, a, b, c);
    let len = cs.constraints.len() as int;
    assert forall|i: int| 0 <= i < s.constraints.len() implies constraint_allocated(
        #[trigger] s.constraints[i],
        s.inputs.len(),
        s.aux.len(),
    ) by {
        if i < len {
            assert(s.constraints[i] == cs.constraints[i]);
            assert(constraint_allocated(cs.constraints[i], cs.inputs.len(), cs.aux.len()));
        } else {
            assert(0 <= i - len < 7);
        }
    }
}

/// Soundness and completeness of the circuit from any start: with all three
/// values present, the system after synthesis is satisfied exactly when the
/// system before it was and `c` is `a XOR b`, in a field of any size.
pub proof fn lemma_xor_system_satisfied_iff(
    cs: SystemView,
    a: bool,
    b: bool,
    c: bool,
    modulus: int,
)
    requires
        modulus >= 2,
        cs.wf(),
        cs.closed(),
        cs.aux.len() + 5 <= usize::MAX,
        cs.inputs.len() + 2 <= usize::MAX,
    ensures
        xor_system(cs, Some(a), Some(b), Some(c)).satisfied(modulus) <==> cs.satisfied(modulus)
            && c == (a != b),
{
    let s = xor_system(cs, Some(a), Some(b), Some(c));
    let n = cs.aux.len() as int;
    let m = cs.inputs.len() as int;
    let len = cs.constraints.len() as int;
    let more_inputs = seq![Some(a), Some(b)];
    let more_aux = seq![Some(false), Some(a), Some(b), xor_value(Some(a), Some(b)), Some(c)];
    let zero = Variable::Aux(n as usize);
    let va = Variable::Aux((n + 1) as usize);
    let vb = Variable::Aux((n + 2) as usize);
    let vx = Variable::Aux((n + 3) as usize);
    let vc = Variable::Aux((n + 4) as usize);
    let ia = Variable::Input(m as usize);
    let ib = Variable::Input((m + 1) as usize);
    let k = s.constraints;
    assert(k.len() == len + 7);
    assert(k[len] == boolean_constraint(va, zero));
    assert(k[len + 1] == equality_constraint(ia, va));
    assert(k[len + 2] == boolean_constraint(vb, zero));
    assert(k[len + 3] == equality_constraint(ib, vb));
    assert(k[len + 4] == xor_constraint(va, vb, vx));
    assert(k[len + 5] == boolean_constraint(vc, zero));
    assert(k[len + 6] == equality_constraint(vx, vc));
    assert(s.inputs[0] == cs.inputs[0]);
    assert(var_value(s.inputs, s.aux, Variable::Input(0)) == 1);
    assert(var_value(s.inputs, s.aux, zero) == 0);
    assert(var_value(s.inputs, s.aux, va) == bit_value(Some(a)));
    assert(var_value(s.inputs, s.aux, vb) == bit_value(Some(b)));
    assert(var_value(s.inputs, s.aux, vx) == bit_value(Some(a != b)));
    assert(var_value(s.inputs, s.aux, vc) == bit_value(Some(c)));
    assert(var_value(s.inputs, s.aux, ia) == bit_value(Some(a)));
    assert(var_value(s.inputs, s.aux, ib) == bit_value(Some(b)));
    lemma_constraint_values(s, va, zero, zero);
    lemma_constraint_values(s, ia, va, zero);
    lemma_constraint_values(s, vb, zero, zero);
    lemma_constraint_values(s, ib, vb, zero);
    lemma_constraint_values(s, va, vb, vx);
    lemma_constraint_values(s, vc, zero, zero);
    lemma_constraint_values(s, vx, vc, zero);
    lemma_unit_residue(0, modulus);
    lemma_unit_residue(bit_value(Some(a != b)) - bit_value(Some(c)), modulus);
    assert(s.holds(k[len], modulus));
    assert(s.holds(k[len + 1], modulus));
    assert(s.holds(k[len + 2], modulus));
    assert(s.holds(k[len + 3], modulus));
    assert(s.holds(k[len + 4], modulus));
    assert(s.holds(k[len + 5], modulus));
    assert(s.holds(k[len + 6], modulus) <==> c == (a != b));
    assert forall|i: int| 0 <= i < len implies (s.holds(#[trigger] k[i], modulus) <==> cs.holds(
        cs.constraints[i],
        modulus,
    )) by {
        let old_c = cs.constraints[i];
        assert(k[i] == old_c);
        assert(constraint_allocated(old_c, cs.inputs.len(), cs.aux.len()));
        lemma_eval_prefix_extends(old_c.a, cs.inputs, cs.aux, more_inputs, more_aux, old_c.a.len());
        lemma_eval_prefix_extends(old_c.b, cs.inputs, cs.aux, more_inputs, more_aux, old_c.b.len());
        lemma_eval_prefix_extends(old_c.c, cs.inputs, cs.aux, more_inputs, more_aux, old_c.c.len());
    }
    if s.satisfied(modulus) {
        assert(s.holds(k[len + 6], modulus));
        assert forall|i: int| 0 <= i < len implies cs.holds(
            #[trigger] cs.constraints[i],
            modulus,
        ) by {
            assert(s.holds(k[i], modulus));
        }
    }
    if cs.satisfied(modulus) && c == (a != b) {
        assert forall|i: int| 0 <= i < k.len() implies s.holds(#[trigger] k[i], modulus) by {
            if i < len {
                assert(cs.holds(cs.constraints[i], modulus));
            } else {
                assert(0 <= i - len < 7);
            }
        }
    }
}

/// Soundness and completeness of the circuit: with all three values present,
/// the system synthesized from scratch is satisfied exactly when `c` is
/// `a XOR b`, in a field of any size.
pub proof fn lemma_xor_circuit_satisfied_iff(a: bool, b: bool, c: bool, modulus: int)
    requires
        modulus >= 2,
    ensures
        xor_system(SystemView::fresh(true), Some(a), Some(b), Some(c)).satisfied(modulus) <==> c
            == (a != b),
{
    lemma_xor_system_satisfied_iff(SystemView::fresh(true), a, b, c, modulus);
}

/// A setup pass and a proving pass lay out the same system: the constraints
/// and the numbers of variables do not depend on the values.
pub proof fn lemma_xor_system_shape(
    cs: SystemView,
    a: Option<bool>,
    b: Option<bool>,
    c: Option<bool>,
)
    ensures
        xor_system(cs, a, b, c).constraints == xor_system(cs, None, None, None).constraints,
        xor_system(cs, a, b, c).inputs.len() == cs.inputs.len() + 2,
        xor_system(cs, a, b, c).aux.len() == cs.aux.len() + 5,
        xor_system(cs, a, b, c).constraints.len() == cs.constraints.len() + 7,
{
}

} // verus!
