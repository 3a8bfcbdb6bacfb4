use vstd::prelude::*;
use crate::errors::ConfigError;
use crate::options;
use crate::template::{subst, var_token};
use crate::text::{dec_int, i32_to_string, str_eq};

verus! {

// ---------------------------------------------------------------------------
// The variable registry: named, stateful value generators, created once at
// campaign start and mutated only by drawing the next value.
// ---------------------------------------------------------------------------

/// An incremental counter. Emits its current state, then advances by `step`,
/// restarting at `min` when the next value would exceed `max`.
pub struct IncCounter {
    pub counter: i32,
    pub max: i32,
    pub min: i32,
    pub step: i32,
}

impl IncCounter {
    pub open spec fn wf(&self) -> bool {
        &&& self.min <= self.max
        &&& self.step >= 1
        &&& self.min <= self.counter <= self.max
        &&& self.max <= i32::MAX - self.step
    }

    /// The state after one draw: stepped, or wrapped back to `min`.
    pub open spec fn advanced(&self) -> IncCounter {
        if self.counter + self.step > self.max {
            (IncCounter { counter: self.min, ..*self })
        } else {
            (IncCounter { counter: (self.counter + self.step) as i32, ..*self })
        }
    }

    pub fn new(option: &options::Variable) -> (r: IncCounter)
        requires
            option.min <= option.max,
            option.step >= 1,
            option.max <= i32::MAX - option.step,
        ensures
            r == (IncCounter {
                counter: option.min,
                max: option.max,
                min: option.min,
                step: option.step,
            }),
            r.wf(),
    {
        IncCounter { counter: option.min, max: option.max, min: option.min, step: option.step }
    }

    /// Emits the pre-advance state, then advances.
    pub fn get(&mut self) -> (r: String)
        requires
            old(self).wf(),
        ensures
            r@ == dec_int(old(self).counter as int),
            *final(self) == old(self).advanced(),
            final(self).wf(),
    {
        let value = self.counter;
        self.counter = self.counter + self.step;
        if self.counter > self.max {
            self.counter = self.min;
        }
        i32_to_string(value)
    }
}

/// A uniform random draw in `min ..= max` on each call, stateless.
pub struct Random {
    pub min: i32,
    pub max: i32,
}

/// Relies on `rand::rng` and `rand::Rng::random_range`: a draw from an
/// inclusive range lies within that range.
#[verifier::external_body]
fn random_in_range(min: i32, max: i32) -> (r: i32)
    requires
        min <= max,
    ensures
        min <= r <= max,
{
    rand::RngExt::random_range(&mut rand::rng(), min..=max)
}

impl Random {
    pub open spec fn wf(&self) -> bool {
        self.min <= self.max
    }

    pub fn new(option: &options::Variable) -> (r: Random)
        requires
            option.min <= option.max,
        ensures
            r == (Random { min: option.min, max: option.max }),
            r.wf(),
    {
        Random { min: option.min, max: option.max }
    }

    pub fn get(&self) -> (r: String)
        requires
            self.wf(),
        ensures
            exists|n: int| self.min <= n <= self.max && r@ == dec_int(n),
    {
        let n = random_in_range(self.min, self.max);
        let s = i32_to_string(n);
        assert(exists|m: int| self.min <= m <= self.max && s@ == dec_int(m)) by {
            assert(self.min <= n as int <= self.max && s@ == dec_int(n as int));
        }
        s
    }
}

/// A value generator: what a registry variable runs when it is asked for its
/// next value.
pub enum Function {
    IncrementalCounter(IncCounter),
    RandomNumber(Random),
}

impl Function {
    pub open spec fn wf(&self) -> bool {
        match self {
            Function::IncrementalCounter(c) => c.wf(),
            Function::RandomNumber(r) => r.wf(),
        }
    }

    /// The generator state after one draw.
    pub open spec fn advanced(&self) -> Function {
        match self {
            Function::IncrementalCounter(c) => Function::IncrementalCounter(c.advanced()),
            Function::RandomNumber(r) => Function::RandomNumber(*r),
        }
    }

    /// Whether `out` is a value this generator state can emit.
    pub open spec fn can_emit(&self, out: Seq<char>) -> bool {
        match self {
            Function::IncrementalCounter(c) => out == dec_int(c.counter as int),
            Function::RandomNumber(r) => exists|n: int| r.min <= n <= r.max && out == dec_int(n),
        }
    }

    /// Draws the next value: emits, then advances.
    pub fn get(&mut self) -> (r: String)
        requires
            old(self).wf(),
        ensures
            final(self).wf(),
            *final(self) == old(self).advanced(),
            old(self).can_emit(r@),
    {
        match self {
            Function::IncrementalCounter(c) => c.get(),
            Function::RandomNumber(r) => r.get(),
        }
    }
}

/// A named generator.
pub struct Variable {
    pub name: String,
    pub value: Function,
}

/// The index of the first variable named `name`, or -1 when there is none.
pub open spec fn find_var(vars: Seq<Variable>, name: Seq<char>) -> int
    decreases vars.len(),
{
    if vars.len() == 0 {
        -1
    } else if vars[0].name@ == name {
        0
    } else {
        let r = find_var(vars.drop_first(), name);
        if r < 0 {
            -1
        } else {
            r + 1
        }
    }
}

pub proof fn lemma_find_var(vars: Seq<Variable>, name: Seq<char>)
    ensures
        find_var(vars, name) < 0 ==> forall|i: int|
            0 <= i < vars.len() ==> (#[trigger] vars[i].name)@ != name,
        find_var(vars, name) >= 0 ==> {
            &&& find_var(vars, name) < vars.len()
            &&& vars[find_var(vars, name)].name@ == name
            &&& forall|i: int|
                0 <= i < find_var(vars, name) ==> (#[trigger] vars[i].name)@ != name
        },
    decreases vars.len(),
{
    if vars.len() > 0 && vars[0].name@ != name {
        lemma_find_var(vars.drop_first(), name);
        assert(forall|i: int|
            1 <= i < vars.len() ==> #[trigger] vars[i] == vars.drop_first()[i - 1]);
    }
}

/// Whether an entry is a configuration the registry accepts.
pub open spec fn var_spec_ok(v: options::Variable) -> bool {
    match v.func {
        options::Function::IncrementalCounter => v.min <= v.max && v.step >= 1 && v.max
            <= i32::MAX - v.step,
        options::Function::RandomNumber => v.min <= v.max,
        options::Function::CustomScript => false,
    }
}

/// The variable built from one accepted entry.
pub open spec fn build_var(name: String, v: options::Variable) -> Variable {
    Variable {
        name,
        value: match v.func {
            options::Function::IncrementalCounter => Function::IncrementalCounter(
                IncCounter { counter: v.min, max: v.max, min: v.min, step: v.step },
            ),
            options::Function::RandomNumber => Function::RandomNumber(
                Random { min: v.min, max: v.max },
            ),
            options::Function::CustomScript => arbitrary(),
        },
    }
}

/// The configured entries in order, the nested name-to-generator maps
/// flattened.
pub open spec fn flat_vars(maps: Seq<Vec<(String, options::Variable)>>) -> Seq<
    (String, options::Variable),
>
    decreases maps.len(),
{
    if maps.len() == 0 {
        Seq::empty()
    } else {
        flat_vars(maps.drop_last()) + maps.last()@
    }
}

/// What building the registry from the flattened entries yields: the built
/// variables in order, or the first configuration error.
pub open spec fn build_vars(flat: Seq<(String, options::Variable)>) -> Result<
    Seq<Variable>,
    ConfigError,
>
    decreases flat.len(),
{
    if flat.len() == 0 {
        Ok(Seq::empty())
    } else {
        match build_vars(flat.drop_last()) {
            Err(e) => Err(e),
            Ok(pre) => {
                let name = flat.last().0;
                let v = flat.last().1;
                if exists|j: int| 0 <= j < pre.len() && (#[trigger] pre[j].name)@ == name@ {
                    Err(ConfigError::DuplicateVariable { name })
                } else if v.func is CustomScript {
                    Err(ConfigError::UnsupportedKind { name })
                } else if !var_spec_ok(v) {
                    Err(ConfigError::InvalidRange { name })
                } else {
                    Ok(pre.push(build_var(name, v)))
                }
            },
        }
    }
}

/// The registry: the campaign's named generators, names unique.
pub struct Global {
    pub variables: Vec<Variable>,
}

impl Global {
    pub open spec fn wf(&self) -> bool {
        &&& forall|i: int|
            0 <= i < self.variables@.len() ==> (#[trigger] self.variables@[i]).value.wf()
        &&& forall|i: int, j: int|
            0 <= i < j < self.variables@.len() ==> (#[trigger] self.variables@[i].name)@ != (
            #[trigger] self.variables@[j].name)@
    }

    /// Builds the registry. Fails on a duplicated name, a bad range, or an
    /// unsupported generator kind — on the first offending entry in
    /// configured order.
    pub fn new(options: &options::Global) -> (r: Result<Global, ConfigError>)
        ensures
            match r {
                Ok(g) => build_vars(flat_vars(options.variables@)) == Ok::<
                    Seq<Variable>,
                    ConfigError,
                >(g.variables@) && g.wf(),
                Err(e) => build_vars(flat_vars(options.variables@)) == Err::<
                    Seq<Variable>,
                    ConfigError,
                >(e),
            },
    {
        let mut flat: Vec<(String, options::Variable)> = Vec::new();
        let mut k: usize = 0;
        proof {
            assert(flat_vars(options.variables@.subrange(0, 0)) =~= Seq::<
                (String, options::Variable),
            >::empty());
        }
        while k < options.variables.len()
            invariant
                k <= options.variables@.len(),
                flat@ == flat_vars(options.variables@.subrange(0, k as int)),
            decreases options.variables@.len() - k,
        {
            let entry = &options.variables[k];
            let ghost f0 = flat@;
            let mut m: usize = 0;
            while m < entry.len()
                invariant
                    m <= entry@.len(),
                    flat@ == f0 + entry@.subrange(0, m as int),
                decreases entry@.len() - m,
            {
                let p = &entry[m];
                flat.push((p.0.clone(), p.1));
                assert(flat@ =~= f0 + entry@.subrange(0, m as int + 1));
                m += 1;
            }
            proof {
                let maps = options.variables@;
                assert(maps.subrange(0, k as int + 1).drop_last() =~= maps.subrange(0, k as int));
                assert(maps.subrange(0, k as int + 1).last() == maps[k as int]);
                assert(entry@.subrange(0, m as int) =~= entry@);
            }
            k += 1;
        }
        assert(options.variables@.subrange(0, k as int) =~= options.variables@);

        let mut vars: Vec<Variable> = Vec::new();
        let mut i: usize = 0;
        proof {
            assert(flat@.subrange(0, 0) =~= Seq::<(String, options::Variable)>::empty());
        }
        while i < flat.len()
            invariant
                i <= flat@.len(),
                flat@ == flat_vars(options.variables@),
                build_vars(flat@.subrange(0, i as int)) == Ok::<Seq<Variable>, ConfigError>(
                    vars@,
                ),
                forall|x: int| 0 <= x < vars@.len() ==> (#[trigger] vars@[x]).value.wf(),
                forall|x: int, y: int|
                    0 <= x < y < vars@.len() ==> (#[trigger] vars@[x].name)@ != (
                    #[trigger] vars@[y].name)@,
            decreases flat@.len() - i,
        {
            let ghost pre = flat@.subrange(0, i as int);
            let ghost cur = flat@.subrange(0, i as int + 1);
            proof {
                assert(cur.drop_last() =~= pre);
                assert(cur.last() == flat@[i as int]);
            }
            let p = &flat[i];
            let dup = Self::index_of_name(&vars, p.0.as_str());
            match dup {
                Some(_) => {
                    proof {
                        lemma_find_var(vars@, p.0@);
                        lemma_build_error_to_end(flat@, i as int + 1);
                    }
                    return Err(ConfigError::DuplicateVariable { name: p.0.clone() });
                },
                None => {
                    proof {
                        lemma_find_var(vars@, p.0@);
                    }
                },
            }
            let v = p.1;
            let built: Variable;
            match v.func {
                options::Function::CustomScript => {
                    proof {
                        lemma_build_error_to_end(flat@, i as int + 1);
                    }
                    return Err(ConfigError::UnsupportedKind { name: p.0.clone() });
                },
                options::Function::IncrementalCounter => {
                    if !(v.min <= v.max && v.step >= 1 && v.max <= i32::MAX - v.step) {
                        proof {
                            lemma_build_error_to_end(flat@, i as int + 1);
                        }
                        return Err(ConfigError::InvalidRange { name: p.0.clone() });
                    }
                    built = Variable {
                        name: p.0.clone(),
                        value: Function::IncrementalCounter(IncCounter::new(&v)),
                    };
                },
                options::Function::RandomNumber => {
                    if !(v.min <= v.max) {
                        proof {
                            lemma_build_error_to_end(flat@, i as int + 1);
                        }
                        return Err(ConfigError::InvalidRange { name: p.0.clone() });
                    }
                    built = Variable {
                        name: p.0.clone(),
                        value: Function::RandomNumber(Random::new(&v)),
                    };
                },
            }
            assert(built == build_var(flat@[i as int].0, flat@[i as int].1));
            vars.push(built);
            i += 1;
        }
        assert(flat@.subrange(0, i as int) =~= flat@);
        Ok(Global { variables: vars })
    }

    /// The position of the first variable in `vars` named `name`.
    fn index_of_name(vars: &Vec<Variable>, name: &str) -> (r: Option<usize>)
        ensures
            match r {
                Some(k) => find_var(vars@, name@) == k as int,
                None => find_var(vars@, name@) < 0,
            },
    {
        proof {
            lemma_find_var(vars@, name@);
        }
        let mut j: usize = 0;
        while j < vars.len()
            invariant
                j <= vars@.len(),
                forall|x: int| 0 <= x < j ==> (#[trigger] vars@[x].name)@ != name@,
            decreases vars@.len() - j,
        {
            if str_eq(vars[j].name.as_str(), name) {
                proof {
                    lemma_find_var(vars@, name@);
                    lemma_find_var_first(vars@, name@, j as int);
                }
                return Some(j);
            }
            j += 1;
        }
        proof {
            lemma_find_var(vars@, name@);
            if find_var(vars@, name@) >= 0 {
                assert(vars@[find_var(vars@, name@)].name@ == name@);
            }
        }
        None
    }

    /// Looks a variable up by name.
    pub fn get_variable(&self, name: &str) -> (r: Option<&Variable>)
        ensures
            match r {
                Some(v) => {
                    &&& find_var(self.variables@, name@) >= 0
                    &&& *v == self.variables@[find_var(self.variables@, name@)]
                    &&& v.name@ == name@
                },
                None => find_var(self.variables@, name@) < 0,
            },
    {
        let idx = Self::index_of_name(&self.variables, name);
        proof {
            lemma_find_var(self.variables@, name@);
        }
        match idx {
            Some(k) => Some(&self.variables[k]),
            None => None,
        }
    }
}

/// If the first `k` entries already fail to build, the whole list fails the
/// same way.
proof fn lemma_build_error_to_end(flat: Seq<(String, options::Variable)>, k: int)
    requires
        0 <= k <= flat.len(),
        build_vars(flat.subrange(0, k)) is Err,
    ensures
        build_vars(flat) == build_vars(flat.subrange(0, k)),
    decreases flat.len() - k,
{
    if k < flat.len() {
        let a = flat.subrange(0, k);
        let b = flat.subrange(0, k + 1);
        assert(b.drop_last() =~= a);
        lemma_build_error_to_end(flat, k + 1);
    } else {
        assert(flat.subrange(0, k) =~= flat);
    }
}

// ---------------------------------------------------------------------------
// Materialization semantics: drawing captured variables in capture order and
// substituting every occurrence of their references. Random outcomes are
// supplied by an oracle sequence `draws`; counters ignore it.
// ---------------------------------------------------------------------------

/// What a generator emits for one draw, `d` supplying a random outcome.
pub open spec fn draw_output(f: Function, d: int) -> Seq<char> {
    match f {
        Function::IncrementalCounter(c) => dec_int(c.counter as int),
        Function::RandomNumber(_) => dec_int(d),
    }
}

/// Whether `d` is an outcome the generator can draw.
pub open spec fn draw_ok(f: Function, d: int) -> bool {
    match f {
        Function::IncrementalCounter(_) => true,
        Function::RandomNumber(r) => r.min <= d <= r.max,
    }
}

/// Whether every oracle value is an outcome its variable can draw.
pub open spec fn draws_ok(idxs: Seq<usize>, vars: Seq<Variable>, draws: Seq<int>) -> bool {
    &&& draws.len() == idxs.len()
    &&& forall|k: int|
        0 <= k < idxs.len() ==> (#[trigger] idxs[k]) < vars.len() && draw_ok(
            vars[idxs[k] as int].value,
            draws[k],
        )
}

/// The variable at `idx` advanced once, everything else unchanged.
pub open spec fn advance_at(vars: Seq<Variable>, idx: int) -> Seq<Variable> {
    vars.update(
        idx,
        Variable { name: vars[idx].name, value: vars[idx].value.advanced() },
    )
}

/// One materialization: each captured variable drawn once, in capture order,
/// every occurrence of its reference substituted by the drawn value.
pub open spec fn materialize_with(
    source: Seq<char>,
    idxs: Seq<usize>,
    vars: Seq<Variable>,
    draws: Seq<int>,
) -> (Seq<char>, Seq<Variable>)
    decreases idxs.len(),
{
    if idxs.len() == 0 {
        (source, vars)
    } else {
        let i = idxs[0] as int;
        if i < vars.len() {
            let out = draw_output(vars[i].value, draws[0]);
            let s2 = subst(source, var_token(vars[i].name@), out);
            materialize_with(s2, idxs.drop_first(), advance_at(vars, i), draws.drop_first())
        } else {
            (source, vars)
        }
    }
}

/// Whether two generator states accept the same draws: a counter accepts
/// anything, a random draw keeps its range.
pub open spec fn same_draw_profile(a: Function, b: Function) -> bool {
    match (a, b) {
        (Function::IncrementalCounter(_), Function::IncrementalCounter(_)) => true,
        (Function::RandomNumber(r1), Function::RandomNumber(r2)) => r1 == r2,
        _ => false,
    }
}

/// Whether `g1` is `g0` with only generator states advanced: the same
/// length, the same names in the same places, the same draw profiles.
pub open spec fn same_shape(g0: Seq<Variable>, g1: Seq<Variable>) -> bool {
    &&& g1.len() == g0.len()
    &&& forall|i: int| 0 <= i < g0.len() ==> (#[trigger] g1[i]).name == g0[i].name
    &&& forall|i: int|
        0 <= i < g0.len() ==> same_draw_profile((#[trigger] g0[i]).value, g1[i].value)
}

/// Lookup goes by names alone, so registries of the same shape resolve every
/// name alike.
pub proof fn lemma_find_var_same_names(g0: Seq<Variable>, g1: Seq<Variable>, name: Seq<char>)
    requires
        g1.len() == g0.len(),
        forall|i: int| 0 <= i < g0.len() ==> (#[trigger] g1[i]).name == g0[i].name,
    ensures
        find_var(g0, name) == find_var(g1, name),
    decreases g0.len(),
{
    if g0.len() > 0 {
        assert(g1[0].name == g0[0].name);
        assert(forall|i: int|
            0 <= i < g0.drop_first().len() ==> (#[trigger] g0.drop_first()[i]) == g0[i + 1]);
        assert(forall|i: int|
            0 <= i < g1.drop_first().len() ==> (#[trigger] g1.drop_first()[i]) == g1[i + 1]);
        lemma_find_var_same_names(g0.drop_first(), g1.drop_first(), name);
    }
}

/// Materialization keeps the registry's length, names and draw profiles.
pub proof fn lemma_materialize_shape(
    source: Seq<char>,
    idxs: Seq<usize>,
    vars: Seq<Variable>,
    draws: Seq<int>,
)
    ensures
        materialize_with(source, idxs, vars, draws).1.len() == vars.len(),
        forall|i: int|
            0 <= i < vars.len() ==> (#[trigger] materialize_with(
                source,
                idxs,
                vars,
                draws,
            ).1[i]).name == vars[i].name,
        forall|i: int|
            0 <= i < vars.len() ==> same_draw_profile(
                vars[i].value,
                (#[trigger] materialize_with(source, idxs, vars, draws).1[i]).value,
            ),
    decreases idxs.len(),
{
    if idxs.len() > 0 {
        let i = idxs[0] as int;
        if i < vars.len() {
            let out = draw_output(vars[i].value, draws[0]);
            let s2 = subst(source, var_token(vars[i].name@), out);
            lemma_materialize_shape(s2, idxs.drop_first(), advance_at(vars, i), draws.drop_first());
            assert forall|x: int|
                0 <= x < vars.len() implies same_draw_profile(
                vars[x].value,
                advance_at(vars, i)[x].value,
            ) by {
                if x != i {
                    assert(advance_at(vars, i)[x] == vars[x]);
                }
            }
        }
    }
}

/// One more draw-and-substitute step applied to a materialization so far.
pub open spec fn materialize_step(r: (Seq<char>, Seq<Variable>), idx: usize, d: int) -> (
    Seq<char>,
    Seq<Variable>,
) {
    if (idx as int) < r.1.len() {
        (
            subst(r.0, var_token(r.1[idx as int].name@), draw_output(r.1[idx as int].value, d)),
            advance_at(r.1, idx as int),
        )
    } else {
        r
    }
}

/// Materializing one more variable applies one more draw-and-substitute step
/// to the result so far.
pub proof fn lemma_materialize_snoc(
    source: Seq<char>,
    idxs: Seq<usize>,
    vars: Seq<Variable>,
    draws: Seq<int>,
    idx: usize,
    d: int,
)
    requires
        draws.len() == idxs.len(),
        forall|k: int| 0 <= k < idxs.len() ==> (#[trigger] idxs[k]) < vars.len(),
        (idx as int) < vars.len(),
    ensures
        materialize_with(source, idxs.push(idx), vars, draws.push(d)) == materialize_step(
            materialize_with(source, idxs, vars, draws),
            idx,
            d,
        ),
    decreases idxs.len(),
{
    lemma_materialize_shape(source, idxs, vars, draws);
    if idxs.len() == 0 {
        assert(idxs.push(idx).drop_first() =~= idxs);
        assert(draws.push(d).drop_first() =~= draws);
        assert(idxs.push(idx)[0] == idx);
        assert(draws.push(d)[0] == d);
        assert(materialize_with(source, idxs, vars, draws) == (source, vars));
        if (idx as int) < vars.len() {
            let out = draw_output(vars[idx as int].value, d);
            let s2 = subst(source, var_token(vars[idx as int].name@), out);
            assert(materialize_with(s2, idxs, advance_at(vars, idx as int), draws) == (
                s2,
                advance_at(vars, idx as int),
            ));
            assert(materialize_with(source, idxs.push(idx), vars, draws.push(d)) == (
                s2,
                advance_at(vars, idx as int),
            ));
            assert(materialize_step(materialize_with(source, idxs, vars, draws), idx, d) == (
                s2,
                advance_at(vars, idx as int),
            ));
        } else {
            assert(materialize_with(source, idxs.push(idx), vars, draws.push(d)) == (
                source,
                vars,
            ));
            assert(materialize_step(materialize_with(source, idxs, vars, draws), idx, d) == (
                source,
                vars,
            ));
        }
    } else {
        let i = idxs[0] as int;
        assert(idxs.push(idx)[0] == idxs[0]);
        assert(draws.push(d)[0] == draws[0]);
        assert(idxs.push(idx).drop_first() =~= idxs.drop_first().push(idx));
        assert(draws.push(d).drop_first() =~= draws.drop_first().push(d));
        if i < vars.len() {
            let out = draw_output(vars[i].value, draws[0]);
            let s2 = subst(source, var_token(vars[i].name@), out);
            assert(advance_at(vars, i).len() == vars.len());
            assert(forall|k: int|
                0 <= k < idxs.drop_first().len() ==> (#[trigger] idxs.drop_first()[k])
                    == idxs[k + 1]);
            lemma_materialize_snoc(
                s2,
                idxs.drop_first(),
                advance_at(vars, i),
                draws.drop_first(),
                idx,
                d,
            );
            assert(materialize_with(source, idxs, vars, draws) == materialize_with(
                s2,
                idxs.drop_first(),
                advance_at(vars, i),
                draws.drop_first(),
            ));
            assert(materialize_with(source, idxs.push(idx), vars, draws.push(d))
                == materialize_with(
                s2,
                idxs.drop_first().push(idx),
                advance_at(vars, i),
                draws.drop_first().push(d),
            ));
        } else {
            assert(materialize_with(source, idxs, vars, draws) == (source, vars));
            assert(materialize_with(source, idxs.push(idx), vars, draws.push(d)) == (
                source,
                vars,
            ));
        }
    }
}

impl Global {
    /// Draws the next value of the variable at `idx`: the variable advances
    /// once; everything else is untouched.
    pub fn draw_at(&mut self, idx: usize) -> (r: String)
        requires
            old(self).wf(),
            idx < old(self).variables@.len(),
        ensures
            final(self).wf(),
            final(self).variables@ == advance_at(old(self).variables@, idx as int),
            exists|d: int|
                draw_ok(old(self).variables@[idx as int].value, d) && r@ == draw_output(
                    old(self).variables@[idx as int].value,
                    d,
                ),
    {
        let ghost vars0 = self.variables@;
        let v = &mut self.variables[idx];
        let r = v.value.get();
        proof {
            assert(self.variables@ =~= advance_at(vars0, idx as int));
            let f0 = vars0[idx as int].value;
            match f0 {
                Function::IncrementalCounter(_) => {
                    assert(draw_ok(f0, 0) && r@ == draw_output(f0, 0));
                },
                Function::RandomNumber(rd) => {
                    let n = choose|n: int| rd.min <= n <= rd.max && r@ == dec_int(n);
                    assert(draw_ok(f0, n) && r@ == draw_output(f0, n));
                },
            }
            assert forall|i: int|
                0 <= i < self.variables@.len() implies (#[trigger] self.variables@[i]).value.wf() by {
                if i != idx {
                    assert(self.variables@[i] == vars0[i]);
                }
            }
            assert forall|i: int, j: int|
                0 <= i < j < self.variables@.len() implies (#[trigger] self.variables@[i].name)@
                != (#[trigger] self.variables@[j].name)@ by {
                assert(self.variables@[i].name == vars0[i].name);
                assert(self.variables@[j].name == vars0[j].name);
            }
        }
        r
    }
}

/// The i-th value of the sequence an incremental counter emits.
pub open spec fn counter_value(min: int, max: int, step: int, i: nat) -> int
    decreases i,
{
    if i == 0 {
        min
    } else {
        let p = counter_value(min, max, step, (i - 1) as nat);
        if p + step <= max {
            p + step
        } else {
            min
        }
    }
}

/// The counter state after `i` draws.
pub open spec fn advanced_times(c: IncCounter, i: nat) -> IncCounter
    decreases i,
{
    if i == 0 {
        c
    } else {
        advanced_times(c, (i - 1) as nat).advanced()
    }
}

/// Law: for a counter that starts at `min`, the emitted sequence `s` (the
/// state before the i-th draw) satisfies `s_0 = min` and
/// `s_{i+1} = s_i + step` when that is at most `max`, else `s_{i+1} = min`.
pub proof fn lemma_counter_sequence(c: IncCounter, i: nat)
    requires
        c.wf(),
        c.counter == c.min,
    ensures
        advanced_times(c, i).counter == counter_value(c.min as int, c.max as int, c.step as int, i),
        advanced_times(c, i).wf(),
        advanced_times(c, i).min == c.min,
        advanced_times(c, i).max == c.max,
        advanced_times(c, i).step == c.step,
        counter_value(c.min as int, c.max as int, c.step as int, 0) == c.min,
        counter_value(c.min as int, c.max as int, c.step as int, i + 1) == if counter_value(
            c.min as int,
            c.max as int,
            c.step as int,
            i,
        ) + c.step <= c.max {
            counter_value(c.min as int, c.max as int, c.step as int, i) + c.step
        } else {
            c.min as int
        },
    decreases i,
{
    if i > 0 {
        lemma_counter_sequence(c, (i - 1) as nat);
    }
}

/// A found index at which the name matches, with no earlier match, is what
/// `find_var` returns.
proof fn lemma_find_var_first(vars: Seq<Variable>, name: Seq<char>, k: int)
    requires
        0 <= k < vars.len(),
        vars[k].name@ == name,
        forall|x: int| 0 <= x < k ==> (#[trigger] vars[x].name)@ != name,
    ensures
        find_var(vars, name) == k,
    decreases k,
{
    if k > 0 {
        assert(vars[0].name@ != name);
        assert(forall|x: int|
            1 <= x < vars.len() ==> #[trigger] vars.drop_first()[x - 1] == vars[x]);
        lemma_find_var_first(vars.drop_first(), name, k - 1);
    }
}


impl Global {
    /// The position of the first variable whose name equals `name`.
    pub fn find_index_chars(&self, name: &Vec<char>) -> (r: Option<usize>)
        ensures
            match r {
                Some(k) => find_var(self.variables@, name@) == k as int,
                None => find_var(self.variables@, name@) < 0,
            },
    {
        let mut j: usize = 0;
        while j < self.variables.len()
            invariant
                j <= self.variables@.len(),
                forall|x: int| 0 <= x < j ==> (#[trigger] self.variables@[x].name)@ != name@,
            decreases self.variables@.len() - j,
        {
            if crate::text::str_eq_chars(self.variables[j].name.as_str(), name) {
                proof {
                    lemma_find_var_first(self.variables@, name@, j as int);
                }
                return Some(j);
            }
            j += 1;
        }
        proof {
            lemma_find_var(self.variables@, name@);
            if find_var(self.variables@, name@) >= 0 {
                assert(self.variables@[find_var(self.variables@, name@)].name@ == name@);
            }
        }
        None
    }
}


/// Law: a template that captures no variables materializes to its source,
/// the same result on every call, and leaves every generator untouched.
pub proof fn lemma_constant_template_deterministic(
    source: Seq<char>,
    vars: Seq<Variable>,
    draws1: Seq<int>,
    draws2: Seq<int>,
)
    ensures
        materialize_with(source, Seq::empty(), vars, draws1) == materialize_with(
            source,
            Seq::empty(),
            vars,
            draws2,
        ),
        materialize_with(source, Seq::empty(), vars, draws1).0 == source,
        materialize_with(source, Seq::empty(), vars, draws1).1 == vars,
{
}

/// Law: a variable that no capture refers to is left untouched by one
/// materialization.
pub proof fn lemma_materialize_untouched(
    source: Seq<char>,
    idxs: Seq<usize>,
    vars: Seq<Variable>,
    draws: Seq<int>,
    i: int,
)
    requires
        0 <= i < vars.len(),
        forall|k: int| 0 <= k < idxs.len() ==> (#[trigger] idxs[k]) as int != i,
    ensures
        materialize_with(source, idxs, vars, draws).1[i] == vars[i],
    decreases idxs.len(),
{
    lemma_materialize_shape(source, idxs, vars, draws);
    if idxs.len() > 0 {
        let i0 = idxs[0] as int;
        if i0 < vars.len() {
            let out = draw_output(vars[i0].value, draws[0]);
            let s2 = subst(source, var_token(vars[i0].name@), out);
            assert(advance_at(vars, i0)[i] == vars[i]);
            assert(forall|k: int|
                0 <= k < idxs.drop_first().len() ==> (#[trigger] idxs.drop_first()[k]) == idxs[
                k + 1]);
            lemma_materialize_untouched(
                s2,
                idxs.drop_first(),
                advance_at(vars, i0),
                draws.drop_first(),
                i,
            );
        }
    }
}

/// Law: each distinct captured variable advances exactly once per
/// materialization, regardless of how often its reference occurs in the
/// source text.
pub proof fn lemma_materialize_advances_each_once(
    source: Seq<char>,
    idxs: Seq<usize>,
    vars: Seq<Variable>,
    draws: Seq<int>,
    k: int,
)
    requires
        0 <= k < idxs.len(),
        forall|x: int| 0 <= x < idxs.len() ==> (#[trigger] idxs[x]) < vars.len(),
        forall|a: int, b: int|
            0 <= a < b < idxs.len() ==> (#[trigger] idxs[a]) != (#[trigger] idxs[b]),
    ensures
        materialize_with(source, idxs, vars, draws).1[idxs[k] as int].value == vars[
            idxs[k] as int].value.advanced(),
    decreases idxs.len(),
{
    let i0 = idxs[0] as int;
    let out = draw_output(vars[i0].value, draws[0]);
    let s2 = subst(source, var_token(vars[i0].name@), out);
    let vars2 = advance_at(vars, i0);
    assert(forall|x: int|
        0 <= x < idxs.drop_first().len() ==> (#[trigger] idxs.drop_first()[x]) == idxs[x + 1]);
    if k == 0 {
        assert(vars2[i0].value == vars[i0].value.advanced());
        assert(forall|x: int|
            0 <= x < idxs.drop_first().len() ==> (#[trigger] idxs.drop_first()[x]) as int != i0);
        lemma_materialize_untouched(s2, idxs.drop_first(), vars2, draws.drop_first(), i0);
    } else {
        let ik = idxs[k] as int;
        assert(ik != i0);
        assert(vars2[ik] == vars[ik]);
        lemma_materialize_advances_each_once(
            s2,
            idxs.drop_first(),
            vars2,
            draws.drop_first(),
            k - 1,
        );
        assert(idxs.drop_first()[k - 1] == idxs[k]);
    }
}

} // verus!
