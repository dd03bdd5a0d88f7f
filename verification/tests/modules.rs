use farnese::bootstrap::Core;
use farnese::datatype::DataType;
use farnese::error::CompileError;
use farnese::module::Module;
use farnese::symbol::Symbol;
use inkwell::context::Context;

fn names(module: &Module) -> Vec<String> {
    module.get_types().iter().map(|t| t.name().name().to_string()).collect()
}

#[test]
fn new_module_is_empty_and_has_the_output_routine() {
    let context = Context::create();
    let module = Module::new(&context, "Main");
    assert_eq!(module.name().name(), "Main");
    assert!(module.get_types().is_empty());
    assert!(module.get_exports().is_empty());
    assert!(module.get_function("printf").is_ok());
    assert_eq!(
        module.get_function("nope").err(),
        Some(CompileError::UndefinedFunction("nope".to_string()))
    );
}

#[test]
fn inserted_type_is_found_again() {
    let context = Context::create();
    let mut module = Module::new(&context, "Main");
    let field = DataType::new_primitive_type("Int64", "Signed", 64);
    let pair = DataType::from_str(
        "Pair",
        "Any",
        false,
        false,
        false,
        vec!["left".to_string()],
        Box::new(vec![field]),
    );
    assert_eq!(module.insert_type(pair), Ok(()));
    let found = module.get_type("Pair").unwrap();
    assert_eq!(found.name().name(), "Pair");
    assert_eq!(found.supertype().name(), "Any");
    assert_eq!(found.field_names().len(), 1);
    assert_eq!(found.field_names()[0].name(), "left");
    assert_eq!(found.field_types()[0].name().name(), "Int64");
    assert!(module.has_type("Pair"));
    assert!(!module.has_type("Int64"));
}

#[test]
fn second_type_of_a_name_is_refused() {
    let context = Context::create();
    let mut module = Module::new(&context, "Main");
    assert_eq!(module.insert_type(DataType::new_abstract_type("Shape", "Any")), Ok(()));
    let other = DataType::new_primitive_type("Shape", "Number", 8);
    assert_eq!(
        module.insert_type(other),
        Err(CompileError::DuplicateType("Shape".to_string()))
    );
    assert_eq!(names(&module), vec!["Shape".to_string()]);
    let kept = module.get_type("Shape").unwrap();
    assert!(kept.is_abstract());
    assert_eq!(kept.supertype().name(), "Any");
}

#[test]
fn missing_type_is_undefined() {
    let context = Context::create();
    let module = Module::new(&context, "Main");
    assert_eq!(
        module.get_type("Ghost").err(),
        Some(CompileError::UndefinedType("Ghost".to_string()))
    );
}

#[test]
fn exports_keep_their_order_and_duplicates() {
    let context = Context::create();
    let mut module = Module::new(&context, "Main");
    module.push_export(Symbol::new("b"));
    module.push_export(Symbol::new("a"));
    module.push_export(Symbol::new("b"));
    let exports: Vec<&str> = module.get_exports().iter().map(|s| s.name()).collect();
    assert_eq!(exports, vec!["b", "a", "b"]);
}

#[test]
fn link_copies_the_exported_types() {
    let context = Context::create();
    let mut source = Module::new(&context, "Lib");
    source.insert_type(DataType::new_abstract_type("Shape", "Any")).unwrap();
    source.insert_type(DataType::new_abstract_type("Hidden", "Any")).unwrap();
    source.insert_type(DataType::new_primitive_type("Side", "Shape", 32)).unwrap();
    source.push_export(Symbol::new("Side"));
    source.push_export(Symbol::new("Shape"));
    source.push_export(Symbol::new("Side"));
    let mut target = Module::new(&context, "Main");
    target.insert_type(DataType::new_abstract_type("Own", "Any")).unwrap();
    assert_eq!(target.link(&source), Ok(()));
    assert_eq!(
        names(&target),
        vec!["Own".to_string(), "Side".to_string(), "Shape".to_string()]
    );
    assert_eq!(target.get_type("Side").unwrap().supertype().name(), "Shape");
    assert!(target.get_exports().is_empty());
    assert_eq!(names(&source).len(), 3);
}

#[test]
fn link_with_a_conflict_changes_nothing() {
    let context = Context::create();
    let mut source = Module::new(&context, "Lib");
    source.insert_type(DataType::new_abstract_type("Fresh", "Any")).unwrap();
    source.insert_type(DataType::new_primitive_type("Shape", "Any", 8)).unwrap();
    source.push_export(Symbol::new("Fresh"));
    source.push_export(Symbol::new("Shape"));
    let mut target = Module::new(&context, "Main");
    target.insert_type(DataType::new_abstract_type("Shape", "Any")).unwrap();
    assert_eq!(
        target.link(&source),
        Err(CompileError::ConflictingType("Shape".to_string()))
    );
    assert_eq!(names(&target), vec!["Shape".to_string()]);
    assert!(target.get_type("Shape").unwrap().is_abstract());
    assert_eq!(
        target.check_link(&source),
        Err(CompileError::ConflictingType("Shape".to_string()))
    );
}

#[test]
fn export_without_a_type_brings_no_type() {
    let context = Context::create();
    let mut source = Module::new(&context, "Lib");
    source.insert_type(DataType::new_abstract_type("Shape", "Any")).unwrap();
    source.push_export(Symbol::new("area"));
    source.push_export(Symbol::new("Shape"));
    let mut target = Module::new(&context, "Main");
    assert_eq!(target.check_link(&source), Ok(()));
    assert_eq!(target.link(&source), Ok(()));
    assert_eq!(names(&target), vec!["Shape".to_string()]);
}

#[test]
fn link_merges_the_backend_namespace() {
    let context = Context::create();
    let core = Core::new(&context).bootstrap().unwrap();
    let mut target = Module::new(&context, "Main");
    assert!(target.get_function("supertype").is_err());
    assert_eq!(target.link(&core), Ok(()));
    assert!(target.get_function("supertype").is_ok());
    assert!(target.get_function("name").is_ok());
    assert!(core.get_global("Any").is_ok());
    assert!(target.get_struct_type("Symbol").is_ok());
    assert_eq!(
        target.get_global("Nothing").err(),
        Some(CompileError::UndefinedSymbol("Nothing".to_string()))
    );
    assert!(target.print_to_string().contains("declare i8 @printf(i8*, ...)"));
}

#[test]
fn struct_layout_of_another_name_is_undefined() {
    let context = Context::create();
    let module = Module::new(&context, "Main");
    assert_eq!(
        module.get_struct_type("Nowhere").err(),
        Some(CompileError::UndefinedType("Nowhere".to_string()))
    );
}

#[test]
fn modules_of_different_contexts_are_not_linked() {
    let context = Context::create();
    let elsewhere = Context::create();
    let mut source = Module::new(&elsewhere, "Lib");
    source.insert_type(DataType::new_abstract_type("Shape", "Any")).unwrap();
    source.push_export(Symbol::new("Shape"));
    let mut target = Module::new(&context, "Main");
    assert_eq!(target.check_link(&source), Ok(()));
    assert_eq!(target.link(&source), Err(CompileError::Backend));
    assert!(target.get_types().is_empty());
}

#[test]
fn copy_has_the_same_tables_and_a_namespace_of_its_own() {
    let context = Context::create();
    let mut module = Module::new(&context, "Main");
    module.insert_type(DataType::new_abstract_type("Shape", "Any")).unwrap();
    module.push_export(Symbol::new("Shape"));
    let copy = module.try_clone().unwrap();
    assert_eq!(copy.name().name(), "Main");
    assert_eq!(names(&copy), vec!["Shape".to_string()]);
    assert_eq!(copy.get_exports().len(), 1);
    assert!(copy.get_function("printf").is_ok());
    let builder = context.create_builder();
    Core::main_func_begin(&builder, &module);
    assert!(module.get_function("main").is_ok());
    assert!(copy.get_function("main").is_err());
    assert_eq!(module.try_clone().err(), Some(CompileError::Backend));
}
