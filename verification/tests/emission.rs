use farnese::ast::Primitive;
use farnese::backend::Value;
use farnese::bootstrap::Core;
use farnese::datatype::DataType;
use farnese::emit::{
    descriptor_fields, field_types, get_nth_field, load_nth_field, set_nth_field, symbol_fields,
    FarneseInternal, Field, LLVMAlloca, LLVMPrintf, LLVMType, LLVMValue,
};
use farnese::error::CompileError;
use farnese::module::Module;
use farnese::primitive::{emit_format, PrintFormat};
use farnese::symbol::Symbol;
use inkwell::builder::Builder;
use inkwell::context::Context;

fn start<'a>(context: &'a Context, name: &str, builder: &Builder<'a>) -> Module<'a> {
    let core = Core::new(context).bootstrap().unwrap();
    let mut module = Module::new(context, name);
    module.link(&core).unwrap();
    Core::main_func_begin(builder, &module);
    module
}

fn finish<'a>(builder: &Builder<'a>, module: &Module<'a>) -> String {
    Core::main_func_end(builder, module).unwrap();
    assert!(module.module().verify().is_ok(), "{}", module.print_to_string());
    module.print_to_string()
}

#[test]
fn test_datatype() {
    let context = Context::create();
    let builder = context.create_builder();
    let module = start(&context, "test_datatype", &builder);
    let symbol_type = DataType::new(
        Symbol::new("Symbol"),
        Symbol::new("Any"),
        false,
        false,
        false,
        vec![],
        Box::new(vec![]),
    );
    for (name, supertype) in [("DataType", "DataType"), ("Any", "Any"), ("Number", "Any")] {
        let sym = Symbol::new(name);
        let sym_super = Symbol::new(supertype);
        let field_names = Vec::<Symbol>::new();
        let field_types = Box::new(Vec::<DataType>::new());
        let datatype =
            DataType::new(sym.clone(), sym_super, false, false, false, field_names, field_types);
        module.add_global(module.get_struct_type("DataType").unwrap(), None, supertype);
        let ptr = datatype.emit_ir_alloca(&builder, &module).unwrap();

        let func = module.get_function("name").unwrap();
        let name_of = builder
            .build_call(func, &[ptr.into()], "call_name")
            .unwrap()
            .try_as_basic_value()
            .left()
            .unwrap()
            .into_pointer_value();
        let printed = (Value::Pointer(name_of), symbol_type.clone())
            .emit_ir_printf(&builder, &module)
            .unwrap();
        assert!(matches!(printed, Value::Int(_)));

        let func = module.get_function("supertype").unwrap();
        let func_result = builder
            .build_call(func, &[ptr.into()], "call_supertype")
            .unwrap()
            .try_as_basic_value()
            .left()
            .unwrap()
            .into_pointer_value();

        let func = module.get_function("name").unwrap();
        let parent_name = builder
            .build_call(func, &[func_result.into()], "call_name")
            .unwrap()
            .try_as_basic_value()
            .left()
            .unwrap()
            .into_pointer_value();
        (Value::Pointer(parent_name), symbol_type.clone())
            .emit_ir_printf(&builder, &module)
            .unwrap();
    }
    let text = finish(&builder, &module);
    assert!(text.contains("c\"DataType\\00\""));
    assert!(text.contains("c\"Number\\00\""));
    assert!(text.contains("c\"%s\\00\""));
    assert!(text.contains("@Number = external global %DataType"));
    assert!(text.contains("%call_supertype = call %DataType* @supertype"));
}

fn printed(literal: Primitive, name: &str) -> String {
    let context = Context::create();
    let builder = context.create_builder();
    let module = start(&context, name, &builder);
    let result = literal.emit_ir_printf(&builder, &module).unwrap();
    assert!(matches!(result, Value::Int(_)));
    finish(&builder, &module)
}

#[test]
fn test_float32_printf() {
    let text = printed(Primitive::Float32((69.0 as f32).to_bits()), "test_float32");
    assert!(text.contains("c\"%.8f\\00\""));
    assert!(text.contains("double 6.900000e+01"));
}

#[test]
fn test_float64_printf() {
    let text = printed(Primitive::Float64((69.0 as f64).to_bits()), "test_float64");
    assert!(text.contains("c\"%.8f\\00\""));
    assert!(text.contains("double 6.900000e+01"));
}

#[test]
fn test_int32_printf() {
    let text = printed(Primitive::Int32(69 as i32), "test_int32");
    assert!(text.contains("c\"%lld\\00\""));
    assert!(text.contains("i32 69)"));
}

#[test]
fn test_int64_printf() {
    let text = printed(Primitive::Int64(69 as i64), "test_int64");
    assert!(text.contains("c\"%lld\\00\""));
    assert!(text.contains("i64 69)"));
}

#[test]
fn test_string_printf() {
    let context = Context::create();
    let builder = context.create_builder();
    let module = start(&context, "test_string", &builder);
    let prim_val = Primitive::String("MyTestString".to_string());
    let prim_val = prim_val.emit_ir_alloca(&builder, &module).unwrap();
    let datatype = DataType::new_primitive_type("String", "AbstractString", 8);
    let _ = (Value::Pointer(prim_val), datatype).emit_ir_printf(&builder, &module).unwrap();
    let text = finish(&builder, &module);
    assert!(text.contains("c\"MyTestString\\00\""));
    assert!(text.contains("c\"%s\\00\""));
}

#[test]
fn test_float64() {
    let text = printed(Primitive::Float64((69.0 as f64).to_bits()), "primitive_float64_test");
    assert!(text.contains("double 6.900000e+01"));
}

#[test]
fn test_int32() {
    let text = printed(Primitive::Int32(32 as i32), "primitive_int32_test");
    assert!(text.contains("i32 32)"));
}

#[test]
fn test_int64() {
    let text = printed(Primitive::Int64(32 as i64), "primitive_int64_test");
    assert!(text.contains("i64 32)"));
}

#[test]
fn test_primitive() {
    let context = Context::create();
    let builder = context.create_builder();
    let module = start(&context, "primitive_test", &builder);
    Primitive::Char('c').emit_ir_printf(&builder, &module).unwrap();
    Primitive::Float64((69.0 as f64).to_bits()).emit_ir_printf(&builder, &module).unwrap();
    Primitive::Int32(32).emit_ir_printf(&builder, &module).unwrap();
    let text = finish(&builder, &module);
    assert!(text.contains("c\"%c\\00\""));
    assert!(text.contains("i8 99)"));
    assert!(text.contains("double 6.900000e+01"));
    assert!(text.contains("i32 32)"));
}

#[test]
fn test_alloca_and_malloc() {
    let context = Context::create();
    let builder = context.create_builder();
    let module = start(&context, "sym_test", &builder);
    let sym = Symbol::new("Any");
    let sym_ptr = sym.emit_ir_alloca(&builder, &module).unwrap();
    let printed = (Value::Pointer(sym_ptr), DataType::new_primitive_type("Symbol", "Any", 8))
        .emit_ir_printf(&builder, &module)
        .unwrap();
    assert!(matches!(printed, Value::Int(_)));
    let text = finish(&builder, &module);
    assert!(text.contains("c\"Any\\00\""));
    assert!(text.contains(&format!("store i64 {}", sym.hash())));
}

#[test]
fn literal_becomes_a_constant_of_its_kind() {
    let context = Context::create();
    let builder = context.create_builder();
    let module = start(&context, "literals", &builder);
    let constant = |literal: Primitive| match literal.emit_ir_value(&builder, &module).unwrap() {
        Value::Int(x) => (x.get_type().get_bit_width(), x.get_sign_extended_constant()),
        other => panic!("no integer: {:?}", other),
    };
    assert_eq!(constant(Primitive::Int64(-7)), (64, Some(-7)));
    assert_eq!(constant(Primitive::Int32(12)), (32, Some(12)));
    assert_eq!(constant(Primitive::Int16(-3)), (16, Some(-3)));
    assert_eq!(constant(Primitive::Char('A')), (8, Some(65)));
    match Primitive::Float64((2.5 as f64).to_bits()).emit_ir_value(&builder, &module).unwrap() {
        Value::Float(x) => assert_eq!(x.get_constant(), Some((2.5, false))),
        other => panic!("no float: {:?}", other),
    }
    match Primitive::Float32((-0.75 as f32).to_bits()).emit_ir_value(&builder, &module).unwrap() {
        Value::Float(x) => assert_eq!(x.get_constant(), Some((-0.75, false))),
        other => panic!("no float: {:?}", other),
    }
    assert!(matches!(
        Primitive::String("hi".to_string()).emit_ir_value(&builder, &module),
        Ok(Value::Other(_))
    ));
}

#[test]
fn float_literal_needs_a_positioned_builder() {
    let context = Context::create();
    let builder = context.create_builder();
    let module = Module::new(&context, "unpositioned");
    let literal = Primitive::Float64((1.0 as f64).to_bits());
    assert_eq!(literal.emit_ir_value(&builder, &module).err(), Some(CompileError::Backend));
    assert!(Primitive::Int64(1).emit_ir_value(&builder, &module).is_ok());
    assert_eq!(
        Primitive::Int64(1).emit_ir_alloca(&builder, &module).err(),
        Some(CompileError::Backend)
    );
    assert_eq!(
        emit_format(PrintFormat::Integer, &builder, &module).err(),
        Some(CompileError::Backend)
    );
}

#[test]
fn literal_types_follow_the_table() {
    let table = [
        (Primitive::Char('x'), "Char", "Any"),
        (Primitive::Float32(0), "Float32", "AbstractFloat"),
        (Primitive::Float64(0), "Float64", "AbstractFloat"),
        (Primitive::Int16(0), "Int16", "Signed"),
        (Primitive::Int32(0), "Int32", "Signed"),
        (Primitive::Int64(0), "Int64", "Signed"),
        (Primitive::String(String::new()), "String", "AbstractString"),
    ];
    for (literal, name, supertype) in table {
        let datatype = literal.get_datatype();
        assert_eq!(datatype.name().name(), name);
        assert_eq!(datatype.supertype().name(), supertype);
        assert!(datatype.is_primitive());
        assert!(!datatype.is_abstract());
    }
}

#[test]
fn formats_are_chosen_by_kind_and_by_name() {
    assert_eq!(PrintFormat::Character.bytes(), b"%c\0".to_vec());
    assert_eq!(PrintFormat::Decimal.bytes(), b"%.8f\0".to_vec());
    assert_eq!(PrintFormat::Integer.bytes(), b"%lld\0".to_vec());
    assert_eq!(PrintFormat::Text.bytes(), b"%s\0".to_vec());
    assert_eq!(Primitive::Char('c').format(), PrintFormat::Character);
    assert_eq!(Primitive::Float32(0).format(), PrintFormat::Decimal);
    assert_eq!(Primitive::Int16(0).format(), PrintFormat::Integer);
    assert_eq!(Primitive::String(String::new()).format(), PrintFormat::Text);
    let of = |name: &str| PrintFormat::for_datatype(&DataType::new_primitive_type(name, "Any", 8));
    assert_eq!(of("Float32"), Ok(PrintFormat::Decimal));
    assert_eq!(of("Float64"), Ok(PrintFormat::Decimal));
    assert_eq!(of("Int32"), Ok(PrintFormat::Integer));
    assert_eq!(of("Int64"), Ok(PrintFormat::Integer));
    assert_eq!(of("String"), Ok(PrintFormat::Text));
    assert_eq!(of("Symbol"), Ok(PrintFormat::Text));
    assert_eq!(of("Int16"), Err(CompileError::UnsupportedPrimitive("Int16".to_string())));
}

#[test]
fn value_without_a_format_is_not_printed() {
    let context = Context::create();
    let builder = context.create_builder();
    let module = start(&context, "formats", &builder);
    let value = Primitive::Int64(1).emit_ir_value(&builder, &module).unwrap();
    let any = DataType::new_abstract_type("Any", "Any");
    assert_eq!(
        (value, any).emit_ir_printf(&builder, &module).err(),
        Some(CompileError::UnsupportedPrimitive("Any".to_string()))
    );
    let symbol = DataType::new_primitive_type("Symbol", "Any", 8);
    assert_eq!(
        (value, symbol).emit_ir_printf(&builder, &module).err(),
        Some(CompileError::TypeMismatch)
    );
}

#[test]
fn a_symbol_is_printed_through_a_pointer_to_its_layout_only() {
    let context = Context::create();
    let builder = context.create_builder();
    let module = start(&context, "fields", &builder);
    let symbol = DataType::new_primitive_type("Symbol", "Any", 8);
    let text = Primitive::String("s".to_string()).emit_ir_alloca(&builder, &module).unwrap();
    assert_eq!(
        (Value::Pointer(text), symbol.clone()).emit_ir_printf(&builder, &module).err(),
        Some(CompileError::TypeMismatch)
    );
    let descriptor = DataType::new_abstract_type("Any", "Any");
    module.add_global(module.get_struct_type("DataType").unwrap(), None, "Any");
    let other = descriptor.emit_ir_alloca(&builder, &module).unwrap();
    assert_eq!(
        (Value::Pointer(other), symbol.clone()).emit_ir_printf(&builder, &module).err(),
        Some(CompileError::TypeMismatch)
    );
    let sym = Symbol::new("s").emit_ir_alloca(&builder, &module).unwrap();
    assert!((Value::Pointer(sym), symbol).emit_ir_printf(&builder, &module).is_ok());
}

#[test]
fn layouts_have_their_fields_in_order() {
    assert_eq!(symbol_fields(), vec![Field::Hash, Field::Text]);
    assert_eq!(descriptor_fields(), vec![Field::SymbolAddress, Field::DescriptorAddress]);
    let context = Context::create();
    let builder = context.create_builder();
    let module = start(&context, "layouts", &builder);
    let symbol = module.get_struct_type("Symbol").unwrap();
    let descriptor = module.get_struct_type("DataType").unwrap();
    assert_eq!(symbol.count_fields(), 2);
    assert!(symbol.get_field_type_at_index(0).unwrap().is_int_type());
    assert!(symbol.get_field_type_at_index(1).unwrap().is_pointer_type());
    assert_eq!(descriptor.count_fields(), 2);
    assert_eq!(
        descriptor.get_field_type_at_index(0).unwrap(),
        symbol.ptr_type(inkwell::AddressSpace::default()).into()
    );
    assert_eq!(
        descriptor.get_field_type_at_index(1).unwrap(),
        descriptor.ptr_type(inkwell::AddressSpace::default()).into()
    );
    assert_eq!(
        field_types(&module, &descriptor_fields(), None, Some(descriptor)).err(),
        Some(CompileError::UndefinedType("Symbol".to_string()))
    );
    assert_eq!(
        field_types(&module, &descriptor_fields(), Some(symbol), None).err(),
        Some(CompileError::UndefinedType("DataType".to_string()))
    );
    assert_eq!(field_types(&module, &symbol_fields(), None, None).unwrap().len(), 2);
}

#[test]
fn layouts_are_declared_once_for_the_context() {
    let context = Context::create();
    let module = Module::new(&context, "layouts");
    let symbol = Symbol::new("Symbol");
    assert_eq!(
        DataType::new_abstract_type("T", "Any").create_opaque_type(&module),
        Err(CompileError::UndefinedType("Symbol".to_string()))
    );
    assert_eq!(
        DataType::new_abstract_type("T", "Any").emit_ir_type(&module),
        Err(CompileError::UndefinedType("DataType".to_string()))
    );
    assert_eq!(symbol.create_opaque_type(&module), Ok(()));
    assert_eq!(symbol.create_new_method(&module), Ok(()));
    assert_eq!(symbol.create_get_methods(&module), Ok(()));
    let datatype = DataType::new_abstract_type("DataType", "DataType");
    assert_eq!(datatype.create_datatype(&module), Ok(()));
    assert_eq!(FarneseInternal::bootstrap(&datatype, &module), Ok(()));
    assert_eq!(datatype.emit_ir_type(&module), Ok(()));
    assert!(module.get_function("Datatype").is_ok());
    assert!(module.get_function("name").is_ok());
    assert!(module.get_global("DataType").is_ok());
    module.add_global(module.get_struct_type("DataType").unwrap(), None, "Any");
    assert_eq!(symbol.create_datatype(&module), Ok(()));
    assert!(module.get_function("__DataType_Symbol").is_ok());
    assert!(module.module().verify().is_ok(), "{}", module.print_to_string());
    let text = module.print_to_string();
    assert!(text.contains("%Symbol = type { i64, i8* }"));
    assert!(text.contains("%DataType = type { %Symbol*, %DataType* }"));
}

#[test]
fn missing_layout_or_global_decides_the_failure() {
    let context = Context::create();
    let builder = context.create_builder();
    let bare = Module::new(&context, "bare");
    Core::main_func_begin(&builder, &bare);
    assert_eq!(
        Symbol::new("s").emit_ir_alloca(&builder, &bare).err(),
        Some(CompileError::UndefinedType("Symbol".to_string()))
    );
    let number = DataType::new_abstract_type("Number", "Real");
    assert_eq!(
        number.emit_ir_alloca(&builder, &bare).err(),
        Some(CompileError::UndefinedType("DataType".to_string()))
    );
    assert_eq!(
        number.create_new_method(&bare),
        Err(CompileError::UndefinedType("Symbol".to_string()))
    );
    assert_eq!(
        Symbol::new("Symbol").create_datatype(&bare),
        Err(CompileError::UndefinedType("DataType".to_string()))
    );
    let other = Context::create();
    let other_builder = other.create_builder();
    let linked = start(&other, "linked", &other_builder);
    assert_eq!(
        number.emit_ir_alloca(&other_builder, &linked).err(),
        Some(CompileError::UndefinedSymbol("Real".to_string()))
    );
    assert_eq!(
        Symbol::new("Symbol").create_datatype(&linked),
        Err(CompileError::UndefinedSymbol("Any".to_string()))
    );
}

#[test]
fn fields_are_reached_through_pointers_only() {
    let context = Context::create();
    let builder = context.create_builder();
    let module = start(&context, "fields", &builder);
    let number = Primitive::Int64(1).emit_ir_value(&builder, &module).unwrap();
    assert_eq!(get_nth_field(&number, &builder, 0).err(), Some(CompileError::TypeMismatch));
    assert_eq!(load_nth_field(&number, &builder, 0).err(), Some(CompileError::TypeMismatch));
    let sym = Value::Pointer(Symbol::new("s").emit_ir_alloca(&builder, &module).unwrap());
    assert_eq!(
        set_nth_field(&sym, &builder, 1, &number).err(),
        Some(CompileError::TypeMismatch)
    );
    assert_eq!(get_nth_field(&sym, &builder, 2).err(), Some(CompileError::Backend));
    assert!(get_nth_field(&sym, &builder, 1).is_ok());
    assert!(matches!(load_nth_field(&sym, &builder, 0), Ok(Value::Int(_))));
    assert!(matches!(load_nth_field(&sym, &builder, 1), Ok(Value::Pointer(_))));
    let text = Value::Pointer(
        Primitive::String("t".to_string()).emit_ir_alloca(&builder, &module).unwrap(),
    );
    assert_eq!(get_nth_field(&text, &builder, 0).err(), Some(CompileError::Backend));
}
