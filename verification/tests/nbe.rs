use std::rc::Rc;
use lib::expr::{BinderInfo, DeBruijnIndex, Expr};
use lib::level::{Level, UniverseParamId};
use lib::name::{NameId, NameTable};
use lib::nbe::{
    substitute_levels, ConstDecl, ConstEnv, DbLevel, EmptyConstEnv, Env, Head, Nbe, Transparency, TransparencyMode,
    Value,
};

#[derive(Default)]
struct TestConsts {
    decls: Vec<Rc<ConstDecl>>,
}

impl TestConsts {
    fn insert(&mut self, decl: ConstDecl) -> NameId {
        let name = decl.name;
        self.decls.push(Rc::new(decl));
        name
    }
}

impl ConstEnv for TestConsts {
    fn decl_of(&self, name: NameId) -> Option<Rc<ConstDecl>> {
        self.decls.iter().find(|d| d.name == name).cloned()
    }

    fn lookup(&self, name: NameId) -> Option<Rc<ConstDecl>> {
        self.decls.iter().find(|d| d.name == name).cloned()
    }
}

fn engine<C: ConstEnv>(consts: &C, mode: TransparencyMode) -> Nbe<'_, C> {
    Nbe::new(consts, mode)
}

fn var(idx: u32) -> Expr {
    Expr::Var(DeBruijnIndex(idx))
}

fn poly_id_body(u: UniverseParamId) -> Expr {
    let mut t = NameTable::new();
    let a_ty = t.intern("A");
    let a_tm = t.intern("a");
    Expr::Lam(
        BinderInfo::Default,
        a_ty,
        Box::new(Expr::Sort(Level::Param(u))),
        Box::new(Expr::Lam(BinderInfo::Default, a_tm, Box::new(var(0)), Box::new(var(0)))),
    )
}

fn decl(name: NameId, params: Vec<UniverseParamId>, body: Option<Expr>, transparency: Transparency) -> ConstDecl {
    ConstDecl {
        name,
        universe_params: params,
        ty: Rc::new(Expr::prop()),
        body: body.map(Rc::new),
        transparency,
        is_constructor: false,
        recursor_info: None,
        quotient_lift: None,
    }
}

#[test]
fn dblevel_basics() {
    assert_eq!(DbLevel::zero(), DbLevel(0));
    assert_eq!(DbLevel::zero().succ(), DbLevel(1));
    assert_eq!(DbLevel(3).as_usize(), 3);
    assert_eq!(DbLevel(2).describe(), "ℓ2");
}

#[test]
fn transparency_permits() {
    type M = TransparencyMode;
    let (irr, red, semi) = (Transparency::Irreducible, Transparency::Reducible, Transparency::Semireducible);
    assert!(M::Reducible.permits(red));
    assert!(!M::Reducible.permits(semi));
    assert!(!M::Reducible.permits(irr));
    assert!(M::Semireducible.permits(red));
    assert!(M::Semireducible.permits(semi));
    assert!(!M::Semireducible.permits(irr));
    assert!(M::All.permits(irr));
}

#[test]
fn env_extend_lookup_len() {
    let env = Env::of_context(2);
    assert_eq!(env.len(), 2);
    assert!(!env.is_empty());
    assert!(Env::empty().is_empty());
    let v0 = env.lookup(DeBruijnIndex(0));
    let v1 = env.lookup(DeBruijnIndex(1));
    assert!(matches!(&*v0, Value::Neutral(Head::Var(DbLevel(1)), _)));
    assert!(matches!(&*v1, Value::Neutral(Head::Var(DbLevel(0)), _)));
}

#[test]
fn eval_beta_reduces() {
    let consts = EmptyConstEnv;
    let nbe = engine(&consts, TransparencyMode::Semireducible);
    let mut names = NameTable::new();
    let x = names.intern("x");
    let id = Expr::lam(x, Expr::prop(), var(0));
    let app = Expr::app(id, var(0));
    let env = Env::of_context(1);
    let v = nbe.eval(&env, &app).unwrap();
    assert!(matches!(&*v, Value::Neutral(Head::Var(DbLevel(0)), _)));
}

#[test]
fn eval_let_inlines() {
    let consts = EmptyConstEnv;
    let nbe = engine(&consts, TransparencyMode::Semireducible);
    let mut names = NameTable::new();
    let x = names.intern("x");
    let e = Expr::Let(x, Box::new(Expr::prop()), Box::new(Expr::prop()), Box::new(var(0)));
    let v = nbe.eval(&Env::empty(), &e).unwrap();
    assert!(matches!(&*v, Value::Sort(_)));
}

#[test]
fn eval_sort_normalizes() {
    let consts = EmptyConstEnv;
    let nbe = engine(&consts, TransparencyMode::Semireducible);
    let l = Level::max(Level::zero(), Level::zero().succ());
    let v = nbe.eval(&Env::empty(), &Expr::Sort(l)).unwrap();
    match &*v {
        Value::Sort(got) => assert_eq!(*got, Level::zero().succ()),
        other => panic!("expected sort, got {other:?}"),
    }
}

#[test]
fn quote_roundtrip_closed_id() {
    let consts = EmptyConstEnv;
    let nbe = engine(&consts, TransparencyMode::Semireducible);
    let mut names = NameTable::new();
    let x = names.intern("x");
    let id = Expr::lam(x, Expr::prop(), var(0));
    let v = nbe.eval(&Env::empty(), &id).unwrap();
    let back = nbe.quote(0, &v).unwrap();
    assert_eq!(back, id);
}

#[test]
fn quote_neutral_var_index_math() {
    let consts = EmptyConstEnv;
    let nbe = engine(&consts, TransparencyMode::Semireducible);
    let v = Value::fresh_var(DbLevel(0));
    assert_eq!(nbe.quote(2, &v).unwrap(), var(1));
    let v = Value::fresh_var(DbLevel(1));
    assert_eq!(nbe.quote(2, &v).unwrap(), var(0));
}

#[test]
fn convert_beta_equal() {
    let consts = EmptyConstEnv;
    let nbe = engine(&consts, TransparencyMode::Semireducible);
    let mut names = NameTable::new();
    let x = names.intern("x");
    let id = Expr::lam(x, Expr::prop(), var(0));
    let env = Env::of_context(1);
    let a = nbe.eval(&env, &Expr::app(id, var(0))).unwrap();
    let b = nbe.eval(&env, &var(0)).unwrap();
    assert!(nbe.convert(1, &a, &b));
}

#[test]
fn convert_eta() {
    let consts = EmptyConstEnv;
    let nbe = engine(&consts, TransparencyMode::Semireducible);
    let mut names = NameTable::new();
    let x = names.intern("x");
    let env = Env::of_context(1);
    let f = nbe.eval(&env, &var(0)).unwrap();
    let eta = Expr::lam(x, Expr::prop(), Expr::app(var(1), var(0)));
    let g = nbe.eval(&env, &eta).unwrap();
    assert!(nbe.convert(1, &f, &g));
    assert!(nbe.convert(1, &g, &f));
}

#[test]
fn convert_distinguishes() {
    let consts = EmptyConstEnv;
    let nbe = engine(&consts, TransparencyMode::Semireducible);
    let env = Env::of_context(2);
    let a = nbe.eval(&env, &var(0)).unwrap();
    let b = nbe.eval(&env, &var(1)).unwrap();
    assert!(!nbe.convert(2, &a, &b));
    let s0 = nbe.eval(&Env::empty(), &Expr::prop()).unwrap();
    let s1 = nbe.eval(&Env::empty(), &Expr::type0()).unwrap();
    assert!(!nbe.convert(0, &s0, &s1));
    assert!(nbe.convert(0, &s0, &s0));
}

#[test]
fn convert_sorts_up_to_normalization() {
    let consts = EmptyConstEnv;
    let nbe = engine(&consts, TransparencyMode::Semireducible);
    let l = Level::max(Level::zero(), Level::zero().succ());
    let a = Rc::new(Value::Sort(l));
    let b = Rc::new(Value::Sort(Level::zero().succ()));
    assert!(nbe.convert(0, &a, &b));
}

#[test]
fn convert_ptr_eq_fast_path() {
    let consts = EmptyConstEnv;
    let nbe = engine(&consts, TransparencyMode::Semireducible);
    let v = Value::fresh_var(DbLevel(0));
    assert!(nbe.convert(1, &v, &v));
}

#[test]
fn delta_unfolds_definition() {
    let mut names = NameTable::new();
    let c = names.intern("c");
    let mut consts = TestConsts::default();
    consts.insert(decl(c, vec![], Some(Expr::prop()), Transparency::Semireducible));
    let nbe = engine(&consts, TransparencyMode::Semireducible);
    let v = nbe.eval(&Env::empty(), &Expr::Const(c, vec![])).unwrap();
    assert!(matches!(&*v, Value::Sort(_)));
}

#[test]
fn delta_respects_transparency() {
    let mut names = NameTable::new();
    let c = names.intern("c");
    let mut consts = TestConsts::default();
    consts.insert(decl(c, vec![], Some(Expr::prop()), Transparency::Irreducible));
    let nbe = engine(&consts, TransparencyMode::Semireducible);
    let v = nbe.eval(&Env::empty(), &Expr::Const(c, vec![])).unwrap();
    assert!(matches!(&*v, Value::Neutral(Head::Const(_, _), _)));
    let nbe_all = engine(&consts, TransparencyMode::All);
    let v2 = nbe_all.eval(&Env::empty(), &Expr::Const(c, vec![])).unwrap();
    assert!(matches!(&*v2, Value::Sort(_)));
    let mut names2 = NameTable::new();
    let d = names2.intern("d");
    let mut consts2 = TestConsts::default();
    consts2.insert(decl(d, vec![], Some(Expr::prop()), Transparency::Semireducible));
    let nbe_red = engine(&consts2, TransparencyMode::Reducible);
    let v3 = nbe_red.eval(&Env::empty(), &Expr::Const(d, vec![])).unwrap();
    assert!(matches!(&*v3, Value::Neutral(Head::Const(_, _), _)));
}

#[test]
fn delta_unknown_const_is_neutral() {
    let consts = EmptyConstEnv;
    let nbe = engine(&consts, TransparencyMode::All);
    let mut names = NameTable::new();
    let c = names.intern("missing");
    let v = nbe.eval(&Env::empty(), &Expr::Const(c, vec![])).unwrap();
    match &*v {
        Value::Neutral(Head::Const(name, _), spine) => {
            assert_eq!(*name, c);
            assert!(spine.is_empty());
        },
        other => panic!("expected neutral const, got {other:?}"),
    }
}

#[test]
fn delta_axiom_is_neutral() {
    let mut names = NameTable::new();
    let ax = names.intern("ax");
    let mut consts = TestConsts::default();
    consts.insert(decl(ax, vec![], None, Transparency::Semireducible));
    let nbe = engine(&consts, TransparencyMode::All);
    let v = nbe.eval(&Env::empty(), &Expr::Const(ax, vec![])).unwrap();
    assert!(matches!(&*v, Value::Neutral(Head::Const(_, _), _)));
}

#[test]
fn delta_instantiates_universe_params() {
    let u = UniverseParamId(41);
    let mut names = NameTable::new();
    let id = names.intern("id");
    let mut consts = TestConsts::default();
    consts.insert(decl(id, vec![u], Some(poly_id_body(u)), Transparency::Semireducible));
    let nbe = engine(&consts, TransparencyMode::Semireducible);
    let v = nbe.eval(&Env::empty(), &Expr::Const(id, vec![Level::zero()])).unwrap();
    let back = nbe.quote(0, &v).unwrap();
    match back {
        Expr::Lam(_, _, dom, _) => assert_eq!(*dom, Expr::Sort(Level::zero())),
        other => panic!("expected lam, got {other:?}"),
    }
}

#[test]
fn substitute_levels_replaces_params() {
    let u = UniverseParamId(51);
    let v = UniverseParamId(52);
    let e = Expr::Sort(Level::max(Level::Param(u), Level::Param(v).succ()));
    let got = substitute_levels(&e, &[u], &[Level::zero()]);
    assert_eq!(got, Expr::Sort(Level::max(Level::zero(), Level::Param(v).succ())));
}

#[test]
fn substitute_levels_missing_actual_keeps_param() {
    let u = UniverseParamId(53);
    let e = Expr::Sort(Level::Param(u));
    assert_eq!(substitute_levels(&e, &[u], &[]), e);
    let w = UniverseParamId(54);
    let e2 = Expr::Sort(Level::Param(w));
    assert_eq!(substitute_levels(&e2, &[u], &[Level::zero()]), e2);
}

#[test]
fn substitute_levels_descends_into_const() {
    let u = UniverseParamId(55);
    let mut names = NameTable::new();
    let c = names.intern("c");
    let e = Expr::Const(c, vec![Level::Param(u)]);
    let got = substitute_levels(&e, &[u], &[Level::zero().succ()]);
    assert_eq!(got, Expr::Const(c, vec![Level::zero().succ()]));
}

#[test]
fn stuck_application_spine_quotes() {
    let consts = EmptyConstEnv;
    let nbe = engine(&consts, TransparencyMode::Semireducible);
    let env = Env::of_context(2);
    let e = Expr::app(var(1), var(0));
    let v = nbe.eval(&env, &e).unwrap();
    let back = nbe.quote(2, &v).unwrap();
    assert_eq!(back, e);
}

#[test]
fn exhausted_budget_gives_no_value() {
    let consts = EmptyConstEnv;
    let nbe = Nbe::with_fuel(&consts, TransparencyMode::Semireducible, 0);
    assert!(nbe.eval(&Env::empty(), &Expr::prop()).is_none());
    assert_eq!(nbe.mode(), TransparencyMode::Semireducible);
    let nbe = Nbe::with_fuel(&consts, TransparencyMode::Semireducible, 1);
    assert!(nbe.eval(&Env::empty(), &Expr::prop()).is_some());
}

#[test]
fn convert_is_reflexive_on_separately_built_values() {
    let mut names = NameTable::new();
    let x = names.intern("x");
    let consts = EmptyConstEnv;
    let nbe = engine(&consts, TransparencyMode::Semireducible);
    // A neutral application `#0 Prop`, built twice.
    let mk_neutral = || {
        Rc::new(Value::Neutral(Head::Var(DbLevel(0)), vec![Rc::new(Value::Sort(Level::zero()))]))
    };
    assert!(nbe.convert(1, &mk_neutral(), &mk_neutral()));
    // The identity function on `Prop`, evaluated twice.
    let id = Expr::Lam(BinderInfo::Default, x, Box::new(Expr::prop()), Box::new(var(0)));
    let a = nbe.eval(&Env::empty(), &id).unwrap();
    let b = nbe.eval(&Env::empty(), &id).unwrap();
    assert!(nbe.convert(0, &a, &b));
    assert!(nbe.convert(0, &a, &a));
    // Sorts compare after normalization, and distinct sorts do not.
    let s0 = Rc::new(Value::Sort(Level::zero()));
    let s1 = Rc::new(Value::Sort(Level::zero().succ()));
    assert!(!nbe.convert(0, &s0, &s1));
}
