use luars::lib_registry::{module_plan, ModulePlan};
use luars::compiler::func_state::{
    adjust_local_vars, new_localvar, reglevel, remove_vars, searchupvalue, Upvaldesc, VarDesc,
};
use luars::lua_value::LocVar;
use luars::compiler::func_state::{format_source, BlockCnt, BlockCntId, CompilerState, VarKind};

#[test]
fn var_kinds() {
    assert!(VarKind::VDKREG.is_in_reg());
    assert!(VarKind::RDKTOCLOSE.is_in_reg());
    assert!(!VarKind::RDKCTC.is_in_reg());
    assert!(!VarKind::GDKREG.is_in_reg());
    assert!(VarKind::GDKREG.is_global());
    assert!(VarKind::GDKCONST.is_global());
    assert!(!VarKind::VDKREG.is_global());
    assert!(VarKind::RDKCONST.is_readonly());
    assert!(VarKind::RDKVAVAR.is_readonly());
    assert!(VarKind::GDKCONST.is_readonly());
    assert!(!VarKind::VDKREG.is_readonly());
    assert!(VarKind::RDKTOCLOSE.is_readonly());
    assert!(VarKind::RDKCTC.is_readonly());
    assert!(!VarKind::GDKREG.is_readonly());
}

#[test]
fn block_pool() {
    let mut cs = CompilerState::new();
    let b = BlockCnt { nactvar: 3, ..BlockCnt::default() };
    let id0 = cs.alloc_blockcnt(b);
    let id1 = cs.alloc_blockcnt(BlockCnt::default());
    assert_eq!(id0, BlockCntId(0));
    assert_eq!(id1, BlockCntId(1));
    if let Some(bl) = cs.get_blockcnt_mut(id1) {
        bl.upval = true;
    }
    let t = cs.take_blockcnt(id0).unwrap();
    assert_eq!(t.nactvar, 3);
    assert!(cs.take_blockcnt(id0).is_none());
    assert!(cs.get_blockcnt_mut(id0).is_none());
    assert!(cs.take_blockcnt(BlockCntId(9)).is_none());
    assert!(cs.take_blockcnt(id1).unwrap().upval);
    let d = BlockCnt::default();
    assert!(d.previous.is_none() && !d.in_scope && d.is_loop == 0);
}

#[test]
fn source_names() {
    assert_eq!(format_source("=stdin"), "stdin");
    assert_eq!(format_source("@main.lua"), "main.lua");
    assert_eq!(format_source("print(1)"), "[string \"print(1)\"]");
    assert_eq!(format_source("a\nb"), "[string \"a...\"]");
    assert_eq!(format_source("a\r\nb"), "[string \"a...\"]");
    assert_eq!(format_source("one line\n"), "[string \"one line\"]");
    assert_eq!(format_source(""), "[string \"\"]");
    let long_name = "=".to_string() + &"x".repeat(70);
    assert_eq!(format_source(&long_name), "x".repeat(59));
    let long_file = "@".to_string() + &"a".repeat(10) + &"b".repeat(60);
    assert_eq!(format_source(&long_file), "...".to_string() + &"b".repeat(56));
    let long_src = "y".repeat(50);
    assert_eq!(format_source(&long_src), format!("[string \"{}...\"]", "y".repeat(45)));
    let exact = "z".repeat(45);
    assert_eq!(format_source(&exact), format!("[string \"{}\"]", exact));
}

fn var(kind: VarKind, ridx: i16, pidx: usize) -> VarDesc {
    VarDesc { name: String::from("v"), kind, ridx, vidx: 0, pidx, const_value: None }
}

#[test]
fn register_levels() {
    let vars = vec![
        var(VarKind::VDKREG, 0, 0),
        var(VarKind::RDKCONST, 1, 0),
        var(VarKind::RDKCTC, -1, 0),
        var(VarKind::GDKREG, -1, 0),
    ];
    assert_eq!(reglevel(&vars, 0), 0);
    assert_eq!(reglevel(&vars, 1), 1);
    assert_eq!(reglevel(&vars, 2), 2);
    assert_eq!(reglevel(&vars, 4), 2);
    assert_eq!(reglevel(&vars, 9), 2);
    assert_eq!(reglevel(&vars[2..], 2), 0);
}

#[test]
fn upvalue_search() {
    let ups = vec![
        Upvaldesc { name: "_ENV".to_string(), in_stack: true, idx: 0, kind: VarKind::VDKREG },
        Upvaldesc { name: "x".to_string(), in_stack: false, idx: 3, kind: VarKind::VDKREG },
        Upvaldesc { name: "x".to_string(), in_stack: false, idx: 4, kind: VarKind::VDKREG },
    ];
    assert_eq!(searchupvalue(&ups, 3, "x"), 1);
    assert_eq!(searchupvalue(&ups, 3, "_ENV"), 0);
    assert_eq!(searchupvalue(&ups, 3, "y"), -1);
    assert_eq!(searchupvalue(&ups, 1, "x"), -1);
}

#[test]
fn declaring_and_removing_locals() {
    let mut actvar: Vec<VarDesc> = Vec::new();
    assert_eq!(new_localvar(&mut actvar, 2, "a".to_string(), VarKind::VDKREG), 0);
    assert_eq!(new_localvar(&mut actvar, 3, "k".to_string(), VarKind::RDKCTC), 1);
    assert_eq!(new_localvar(&mut actvar, 3, "g".to_string(), VarKind::GDKREG), 2);
    assert_eq!(actvar[0].ridx, 2);
    assert_eq!(actvar[1].ridx, -1);
    assert_eq!(actvar[2].ridx, -1);
    assert_eq!(actvar[2].vidx, 2);

    actvar[0].pidx = 0;
    actvar[1].pidx = 1;
    actvar[2].pidx = 7;
    let mut locals = vec![
        LocVar { name: "a".to_string(), startpc: 1, endpc: 0 },
        LocVar { name: "k".to_string(), startpc: 2, endpc: 0 },
    ];
    let mut nactvar: u16 = 3;
    remove_vars(&mut actvar, &mut locals, &mut nactvar, 1, 40);
    assert_eq!(nactvar, 1);
    assert_eq!(actvar.len(), 1);
    assert_eq!(locals[0].endpc, 0);
    assert_eq!(locals[1].endpc, 40);
    assert_eq!(locals[1].startpc, 2);
    remove_vars(&mut actvar, &mut locals, &mut nactvar, 5, 50);
    assert_eq!(nactvar, 1);
    assert_eq!(actvar.len(), 1);
}

#[test]
fn adjust_local_vars_assigns_registers() {
    let mut actvar: Vec<VarDesc> = Vec::new();
    new_localvar(&mut actvar, 0, "a".to_string(), VarKind::VDKREG);
    new_localvar(&mut actvar, 0, "b".to_string(), VarKind::VDKREG);
    let mut locals: Vec<LocVar> = Vec::new();
    let mut nactvar: u16 = 0;
    assert_eq!(adjust_local_vars(&mut actvar, &mut locals, &mut nactvar, 2, 7), Ok(()));
    assert_eq!(nactvar, 2);
    assert_eq!(actvar[0].ridx, 0);
    assert_eq!(actvar[1].ridx, 1);
    assert_eq!(actvar[0].pidx, 0);
    assert_eq!(actvar[1].pidx, 1);
    assert_eq!(locals.len(), 2);
    assert_eq!(locals[1].name, "b");
    assert_eq!(locals[1].startpc, 7);
    assert_eq!(locals[1].endpc, 0);
    assert_eq!(reglevel(&actvar, nactvar), 2);
    // a third variable lands after the first two
    new_localvar(&mut actvar, 2, "c".to_string(), VarKind::VDKREG);
    assert_eq!(adjust_local_vars(&mut actvar, &mut locals, &mut nactvar, 1, 9), Ok(()));
    assert_eq!(actvar[2].ridx, 2);
    assert_eq!(locals[2].startpc, 9);
}

#[test]
fn adjust_local_vars_limit() {
    let mut actvar: Vec<VarDesc> = Vec::new();
    for i in 0..201 {
        new_localvar(&mut actvar, 0, format!("v{}", i), VarKind::VDKREG);
    }
    let mut locals: Vec<LocVar> = Vec::new();
    let mut nactvar: u16 = 0;
    assert_eq!(adjust_local_vars(&mut actvar, &mut locals, &mut nactvar, 201, 0), Err(()));
    assert_eq!(nactvar, 200);
    assert_eq!(locals.len(), 200);
    assert_eq!(actvar[200].ridx, 200);
}

#[test]
fn library_module_plans() {
    assert_eq!(
        module_plan("_G"),
        ModulePlan { globals_from_entries: true, set_module_global: false, string_metatable: false }
    );
    assert_eq!(
        module_plan("string"),
        ModulePlan { globals_from_entries: false, set_module_global: true, string_metatable: true }
    );
    assert_eq!(
        module_plan("math"),
        ModulePlan { globals_from_entries: false, set_module_global: true, string_metatable: false }
    );
}
