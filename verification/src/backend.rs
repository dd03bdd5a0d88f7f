use inkwell::basic_block::BasicBlock;
use inkwell::builder::Builder;
use inkwell::builder::BuilderError;
use inkwell::context::Context;
use inkwell::module::Linkage;
use inkwell::module::Module as BackendModule;
use inkwell::support::LLVMString;
use inkwell::types::BasicMetadataTypeEnum;
use inkwell::types::BasicTypeEnum;
use inkwell::types::FloatType;
use inkwell::types::FunctionType;
use inkwell::types::IntType;
use inkwell::types::PointerType;
use inkwell::types::StructType;
use inkwell::values::ArrayValue;
use inkwell::values::BasicMetadataValueEnum;
use inkwell::values::BasicValueEnum;
use inkwell::values::CallSiteValue;
use inkwell::values::FloatValue;
use inkwell::values::FunctionValue;
use inkwell::values::GlobalValue;
use inkwell::values::IntValue;
use inkwell::values::PointerValue;
use inkwell::AddressSpace;
use vstd::prelude::*;

verus! {

// The backend's types. Verus sees none of their contents: a value of one of
// them is carried from one backend call to the next.
#[verifier::external_type_specification]
#[verifier::external_body]
pub struct ExContext(Context);

#[verifier::external_type_specification]
#[verifier::external_body]
pub struct ExBackendModule<'ctx>(BackendModule<'ctx>);

#[verifier::external_type_specification]
#[verifier::external_body]
pub struct ExBuilder<'ctx>(Builder<'ctx>);

#[verifier::external_type_specification]
#[verifier::external_body]
pub struct ExBuilderError(BuilderError);

#[verifier::external_type_specification]
#[verifier::external_body]
pub struct ExLLVMString(LLVMString);

#[verifier::external_type_specification]
#[verifier::external_body]
pub struct ExBasicBlock<'ctx>(BasicBlock<'ctx>);

#[verifier::external_type_specification]
#[verifier::external_body]
pub struct ExLinkage(Linkage);

#[verifier::external_type_specification]
#[verifier::external_body]
pub struct ExAddressSpace(AddressSpace);

#[verifier::external_type_specification]
#[verifier::external_body]
pub struct ExIntType<'ctx>(IntType<'ctx>);

#[verifier::external_type_specification]
#[verifier::external_body]
pub struct ExFloatType<'ctx>(FloatType<'ctx>);

#[verifier::external_type_specification]
#[verifier::external_body]
pub struct ExPointerType<'ctx>(PointerType<'ctx>);

#[verifier::external_type_specification]
#[verifier::external_body]
pub struct ExStructType<'ctx>(StructType<'ctx>);

#[verifier::external_type_specification]
#[verifier::external_body]
pub struct ExFunctionType<'ctx>(FunctionType<'ctx>);

#[verifier::external_type_specification]
#[verifier::external_body]
pub struct ExBasicTypeEnum<'ctx>(BasicTypeEnum<'ctx>);

#[verifier::external_type_specification]
#[verifier::external_body]
pub struct ExBasicMetadataTypeEnum<'ctx>(BasicMetadataTypeEnum<'ctx>);

#[verifier::external_type_specification]
#[verifier::external_body]
pub struct ExIntValue<'ctx>(IntValue<'ctx>);

#[verifier::external_type_specification]
#[verifier::external_body]
pub struct ExFloatValue<'ctx>(FloatValue<'ctx>);

#[verifier::external_type_specification]
#[verifier::external_body]
pub struct ExPointerValue<'ctx>(PointerValue<'ctx>);

#[verifier::external_type_specification]
#[verifier::external_body]
pub struct ExArrayValue<'ctx>(ArrayValue<'ctx>);

#[verifier::external_type_specification]
#[verifier::external_body]
pub struct ExFunctionValue<'ctx>(FunctionValue<'ctx>);

#[verifier::external_type_specification]
#[verifier::external_body]
pub struct ExGlobalValue<'ctx>(GlobalValue<'ctx>);

#[verifier::external_type_specification]
#[verifier::external_body]
pub struct ExCallSiteValue<'ctx>(CallSiteValue<'ctx>);

#[verifier::external_type_specification]
#[verifier::external_body]
pub struct ExBasicValueEnum<'ctx>(BasicValueEnum<'ctx>);

#[verifier::external_type_specification]
#[verifier::external_body]
pub struct ExBasicMetadataValueEnum<'ctx>(BasicMetadataValueEnum<'ctx>);

/// An integer value as a basic value: what the conversion of an `IntValue`
/// into a `BasicValueEnum` gives.
pub uninterp spec fn int_basic(value: IntValue) -> BasicValueEnum;

/// A float value as a basic value: what the conversion of a `FloatValue`
/// into a `BasicValueEnum` gives.
pub uninterp spec fn float_basic(value: FloatValue) -> BasicValueEnum;

/// A pointer value as a basic value: what the conversion of a
/// `PointerValue` into a `BasicValueEnum` gives.
pub uninterp spec fn pointer_basic(value: PointerValue) -> BasicValueEnum;

/// An array value as a basic value: what the conversion of an `ArrayValue`
/// into a `BasicValueEnum` gives.
pub uninterp spec fn array_basic(value: ArrayValue) -> BasicValueEnum;

/// A basic value as a call argument: what the conversion of a
/// `BasicValueEnum` into a `BasicMetadataValueEnum` gives.
pub uninterp spec fn basic_argument(value: BasicValueEnum) -> BasicMetadataValueEnum;

/// An integer type as a parameter type: what the conversion of an `IntType`
/// into a `BasicMetadataTypeEnum` gives.
pub uninterp spec fn int_param_type(ty: IntType) -> BasicMetadataTypeEnum;

/// A float type as a parameter type: what the conversion of a `FloatType`
/// into a `BasicMetadataTypeEnum` gives.
pub uninterp spec fn float_param_type(ty: FloatType) -> BasicMetadataTypeEnum;

/// A pointer type as a parameter type: what the conversion of a
/// `PointerType` into a `BasicMetadataTypeEnum` gives.
pub uninterp spec fn pointer_param_type(ty: PointerType) -> BasicMetadataTypeEnum;

/// The width in bits of the integers that a pointer type points to, where
/// it was made by `IntType::ptr_type`.
pub uninterp spec fn pointee_width(ty: PointerType) -> u32;

/// `function` is what `IntType::fn_type` gave: the type of functions
/// that take `params`, in this order, and return a value of the type `ty`.
pub uninterp spec fn int_function_type(
    function: FunctionType,
    ty: IntType,
    params: Seq<BasicMetadataTypeEnum>,
    variadic: bool,
) -> bool;

/// `function` is what `FloatType::fn_type` gave: the type of functions
/// that take `params`, in this order, and return a value of the type `ty`.
pub uninterp spec fn float_function_type(
    function: FunctionType,
    ty: FloatType,
    params: Seq<BasicMetadataTypeEnum>,
    variadic: bool,
) -> bool;

/// `function` is what `PointerType::fn_type` gave: the type of functions
/// that take `params`, in this order, and return a value of the type `ty`.
pub uninterp spec fn pointer_function_type(
    function: FunctionType,
    ty: PointerType,
    params: Seq<BasicMetadataTypeEnum>,
    variadic: bool,
) -> bool;

/// The type that a function was declared with: what
/// `FunctionValue::get_type` gives.
pub uninterp spec fn type_of_function(function: FunctionValue) -> FunctionType;

/// Whether a parameter type is that of an integer, a float or a pointer.
pub uninterp spec fn scalar_type(ty: BasicMetadataTypeEnum) -> bool;

/// Whether a function type takes integers, floats and pointers only, and
/// returns one of them.
pub uninterp spec fn takes_scalars(ty: FunctionType) -> bool;

/// Whether a function is of a type that takes integers, floats and
/// pointers only, and returns one of them.
pub uninterp spec fn plain_function(function: FunctionValue) -> bool;

/// Whether a call is one of a function that returns an integer, a float or
/// a pointer.
pub uninterp spec fn plain_call(call: CallSiteValue) -> bool;

/// Whether a pointer is the address of a field of a struct, as
/// `Builder::build_struct_gep` built it.
pub uninterp spec fn field_address(ptr: PointerValue) -> bool;

/// `field` is what `Builder::build_struct_gep` built for the field at
/// `index` of the struct that `ptr` points to.
pub uninterp spec fn field_of(field: PointerValue, ptr: PointerValue, index: u32) -> bool;

/// `value` is what `Builder::build_load` built for what `ptr` points to.
pub uninterp spec fn loaded_from(value: BasicValueEnum, ptr: PointerValue) -> bool;

/// `Builder::build_store` built a store of `value` where `slot` points to.
pub uninterp spec fn stored(slot: PointerValue, value: BasicValueEnum) -> bool;

/// `result` is what `Builder::build_pointer_cast` made of `source`.
pub uninterp spec fn cast_of(result: PointerValue, source: PointerValue) -> bool;

/// The bytes of a constant byte array, as `Context::const_string` made it.
pub uninterp spec fn constant_bytes(text: ArrayValue) -> Seq<u8>;

/// `function` is what `Module::add_function` gave when a function was
/// declared under `name`.
pub uninterp spec fn declared_as(function: FunctionValue, name: Seq<char>) -> bool;

/// `function` is what `Module::get_function` found under `name`.
pub uninterp spec fn found_as(function: FunctionValue, name: Seq<char>) -> bool;

/// `value` is what `FunctionValue::get_nth_param` gave for the parameter of
/// `function` at position `nth`.
pub uninterp spec fn parameter_of(value: BasicValueEnum, function: FunctionValue, nth: u32) -> bool;

/// `call` is what `Builder::build_call` built: a call of `function` on
/// `args`, in this order.
pub uninterp spec fn call_made(
    call: CallSiteValue,
    function: FunctionValue,
    args: Seq<BasicMetadataValueEnum>,
) -> bool;

/// `value` is what `CallSiteValue::try_as_basic_value` gave as the value
/// that `call` returns.
pub uninterp spec fn returned_by(value: BasicValueEnum, call: CallSiteValue) -> bool;

/// `Builder::build_return` built a return of `value`.
pub uninterp spec fn return_built(value: BasicValueEnum) -> bool;

/// `result` is what `Builder::build_int_z_extend` made of `value`.
pub uninterp spec fn int_extended(result: IntValue, value: IntValue) -> bool;

/// `result` is what `Builder::build_float_ext` made of `value`.
pub uninterp spec fn float_extended(result: FloatValue, value: FloatValue) -> bool;

/// `module` is what `Context::create_module` made under `name`.
pub uninterp spec fn created_as(module: BackendModule, name: Seq<char>) -> bool;

/// `copy` is what `Module::clone` made of `source`.
pub uninterp spec fn copy_of(copy: BackendModule, source: BackendModule) -> bool;

/// `Module::link_in_module` merged `source` into `target`.
pub uninterp spec fn linked_into(target: BackendModule, source: BackendModule) -> bool;

/// Whether two backend modules live in one context: whether
/// `Module::get_context` gives the same for both.
pub uninterp spec fn share_context(one: BackendModule, other: BackendModule) -> bool;

/// The name of the type of a float value in the backend's notation: what
/// `FloatValue::get_type` and `FloatType::print_to_string` give. The
/// backend writes `float` for the 32-bit type and `double` for the 64-bit
/// type.
pub uninterp spec fn float_type_name(value: FloatValue) -> Seq<char>;

/// The name of a float type in the backend's notation: what
/// `FloatType::print_to_string` gives.
pub uninterp spec fn float_kind_name(ty: FloatType) -> Seq<char>;

/// `result` is what `Builder::build_bit_cast` made of the integer
/// `pattern`: the float with the bits of `pattern`.
pub uninterp spec fn float_pattern(result: FloatValue, pattern: IntValue) -> bool;

/// The width of an integer type in bits: what `IntType::get_bit_width`
/// gives.
pub uninterp spec fn int_type_width(ty: IntType) -> u32;

/// The width in bits of the type of an integer value: what
/// `IntValue::get_type` and `IntType::get_bit_width` give.
pub uninterp spec fn int_value_width(value: IntValue) -> u32;

/// The bits of a constant integer of at most 64 bits, zero-extended: what
/// `IntValue::get_zero_extended_constant` gives.
pub uninterp spec fn int_constant(value: IntValue) -> Option<u64>;

/// `result` is what `Builder::build_int_add` made of `lhs` and `rhs`, in
/// this order.
pub uninterp spec fn int_sum(result: IntValue, lhs: IntValue, rhs: IntValue) -> bool;

/// `result` is what `Builder::build_int_sub` made of `lhs` and `rhs`, in
/// this order.
pub uninterp spec fn int_difference(result: IntValue, lhs: IntValue, rhs: IntValue) -> bool;

/// The lowest `width` bits of `value`.
pub open spec fn low_bits(value: u64, width: u32) -> u64 {
    if width >= 64 {
        value
    } else {
        (value as nat % vstd::arithmetic::power2::pow2(width as nat)) as u64
    }
}

/// A value of the backend, told apart by the kind that the compiler's rules
/// read: an integer, a float, a pointer, or anything else.
#[derive(Clone, Copy, Debug)]
pub enum Value<'a> {
    Int(IntValue<'a>),
    Float(FloatValue<'a>),
    Pointer(PointerValue<'a>),
    Other(BasicMetadataValueEnum<'a>),
}

/// Whether `value` is what the basic value `raw` holds: an integer, a
/// float or a pointer as itself, anything else as a call argument.
pub open spec fn came_as<'a>(raw: BasicValueEnum<'a>, value: Value<'a>) -> bool {
    match value {
        Value::Int(x) => raw == int_basic(x),
        Value::Float(x) => raw == float_basic(x),
        Value::Pointer(x) => raw == pointer_basic(x),
        Value::Other(x) => x == basic_argument(raw),
    }
}

/// A value as a call argument.
pub open spec fn as_meta<'a>(value: Value<'a>) -> BasicMetadataValueEnum<'a> {
    match value {
        Value::Int(x) => basic_argument(int_basic(x)),
        Value::Float(x) => basic_argument(float_basic(x)),
        Value::Pointer(x) => basic_argument(pointer_basic(x)),
        Value::Other(x) => x,
    }
}

/// Whether `value` is what the call `call` returns.
pub open spec fn yields<'a>(value: Value<'a>, call: CallSiteValue<'a>) -> bool {
    exists|raw: BasicValueEnum<'a>| #[trigger] returned_by(raw, call) && came_as(raw, value)
}

/// Whether `result` is what a call of `function` on `args`, in this order,
/// returns: the call was built, and `result` is its value.
pub open spec fn emitted_call<'a>(
    function: FunctionValue<'a>,
    args: Seq<BasicMetadataValueEnum<'a>>,
    result: Value<'a>,
) -> bool {
    exists|call: CallSiteValue<'a>| #[trigger] call_made(call, function, args) && yields(result, call)
}

/// Whether `value` is the parameter of `function` at position `nth`.
pub open spec fn is_parameter<'a>(value: Value<'a>, function: FunctionValue<'a>, nth: u32) -> bool {
    exists|raw: BasicValueEnum<'a>| #[trigger] parameter_of(raw, function, nth) && came_as(raw, value)
}

/// Whether `value` was loaded from the field at `index` of the struct that
/// `ptr` points to.
pub open spec fn field_value<'a>(value: Value<'a>, ptr: PointerValue<'a>, index: u32) -> bool {
    exists|field: PointerValue<'a>, raw: BasicValueEnum<'a>|
        #![trigger field_of(field, ptr, index), loaded_from(raw, field)]
        field_of(field, ptr, index) && loaded_from(raw, field) && came_as(raw, value)
}

/// Whether a return of `value` was built.
pub open spec fn returned<'a>(value: Value<'a>) -> bool {
    match value {
        Value::Int(x) => return_built(int_basic(x)),
        Value::Float(x) => return_built(float_basic(x)),
        Value::Pointer(x) => return_built(pointer_basic(x)),
        Value::Other(_) => false,
    }
}

/// `Context::eq`: whether two contexts are one and the same.
#[verifier::external_body]
pub(crate) fn same_context(one: &Context, other: &Context) -> bool {
    one == other
}

/// `Context::create_module`: a new, empty backend module under `name`.
#[verifier::external_body]
pub(crate) fn context_create_module<'a>(context: &'a Context, name: &str) -> (module: BackendModule<
    'a,
>)
    ensures
        created_as(module, name@),
{
    context.create_module(name)
}

/// `Context::create_builder`: a new instruction builder, not yet positioned.
#[verifier::external_body]
pub(crate) fn context_create_builder<'a>(context: &'a Context) -> Builder<'a> {
    context.create_builder()
}

/// `Context::i8_type`: the 8-bit integer type.
#[verifier::external_body]
pub(crate) fn context_i8_type<'a>(context: &'a Context) -> (ty: IntType<'a>)
    ensures
        int_type_width(ty) == 8,
{
    context.i8_type()
}

/// `Context::i16_type`: the 16-bit integer type.
#[verifier::external_body]
pub(crate) fn context_i16_type<'a>(context: &'a Context) -> (ty: IntType<'a>)
    ensures
        int_type_width(ty) == 16,
{
    context.i16_type()
}

/// `Context::i32_type`: the 32-bit integer type.
#[verifier::external_body]
pub(crate) fn context_i32_type<'a>(context: &'a Context) -> (ty: IntType<'a>)
    ensures
        int_type_width(ty) == 32,
{
    context.i32_type()
}

/// `Context::i64_type`: the 64-bit integer type.
#[verifier::external_body]
pub(crate) fn context_i64_type<'a>(context: &'a Context) -> (ty: IntType<'a>)
    ensures
        int_type_width(ty) == 64,
{
    context.i64_type()
}

/// `Context::f32_type`: the 32-bit float type, which the backend writes
/// `float`.
#[verifier::external_body]
pub(crate) fn context_f32_type<'a>(context: &'a Context) -> (ty: FloatType<'a>)
    ensures
        float_kind_name(ty) == "float"@,
{
    context.f32_type()
}

/// `Context::f64_type`: the 64-bit float type, which the backend writes
/// `double`.
#[verifier::external_body]
pub(crate) fn context_f64_type<'a>(context: &'a Context) -> (ty: FloatType<'a>)
    ensures
        float_kind_name(ty) == "double"@,
{
    context.f64_type()
}

/// `Context::const_string`: a constant byte array, with a closing zero byte
/// if `null_terminated`.
#[verifier::external_body]
pub(crate) fn context_const_string<'a>(
    context: &'a Context,
    bytes: &[u8],
    null_terminated: bool,
) -> (text: ArrayValue<'a>)
    ensures
        constant_bytes(text) == if null_terminated {
            bytes@.push(0u8)
        } else {
            bytes@
        },
{
    context.const_string(bytes, null_terminated)
}

/// `Context::opaque_struct_type`: a named struct type without a body yet.
#[verifier::external_body]
pub(crate) fn context_opaque_struct_type<'a>(context: &'a Context, name: &str) -> StructType<'a> {
    context.opaque_struct_type(name)
}

/// `Context::append_basic_block`: a new block at the end of `function`.
#[verifier::external_body]
pub(crate) fn context_append_basic_block<'a>(
    context: &'a Context,
    function: FunctionValue<'a>,
    name: &str,
) -> BasicBlock<'a> {
    context.append_basic_block(function, name)
}

/// `AddressSpace::default`: the default address space.
#[verifier::external_body]
pub(crate) fn default_address_space() -> AddressSpace {
    AddressSpace::default()
}

/// `Linkage::External`: the linkage of a symbol that other units can see.
#[verifier::external_body]
pub(crate) fn external_linkage() -> Linkage {
    Linkage::External
}

/// `IntType::ptr_type`: the type of pointers to this integer type.
#[verifier::external_body]
pub(crate) fn int_ptr_type<'a>(ty: IntType<'a>, space: AddressSpace) -> (pointer: PointerType<'a>)
    ensures
        pointee_width(pointer) == int_type_width(ty),
{
    ty.ptr_type(space)
}

/// `FloatValue::get_type`, then `FloatType::print_to_string`: the name of
/// the value's type in the backend's notation.
#[verifier::external_body]
pub(crate) fn float_type_text<'a>(value: FloatValue<'a>) -> (text: String)
    ensures
        text@ == float_type_name(value),
{
    value.get_type().print_to_string().to_string()
}

/// `PointerValue::get_type`: the pointer type of the value.
#[verifier::external_body]
pub(crate) fn pointer_type_of<'a>(value: PointerValue<'a>) -> PointerType<'a> {
    value.get_type()
}

/// `PointerType::eq`: whether two pointer types of the backend are one
/// type.
#[verifier::external_body]
pub(crate) fn same_pointer_type<'a>(one: PointerType<'a>, other: PointerType<'a>) -> bool {
    one == other
}

/// `StructType::ptr_type`: the type of pointers to this struct type.
#[verifier::external_body]
pub(crate) fn struct_ptr_type<'a>(ty: StructType<'a>, space: AddressSpace) -> PointerType<'a> {
    ty.ptr_type(space)
}

/// `IntType::fn_type`: the type of functions that return this integer type.
#[verifier::external_body]
pub(crate) fn int_fn_type<'a>(
    ty: IntType<'a>,
    params: &[BasicMetadataTypeEnum<'a>],
    is_var_args: bool,
) -> (function: FunctionType<'a>)
    ensures
        int_function_type(function, ty, params@, is_var_args),
        (forall|i: int| 0 <= i < params@.len() ==> scalar_type(#[trigger] params@[i]))
            ==> takes_scalars(function),
{
    ty.fn_type(params, is_var_args)
}

/// `FloatType::fn_type`: the type of functions that return this float type.
#[verifier::external_body]
pub(crate) fn float_fn_type<'a>(
    ty: FloatType<'a>,
    params: &[BasicMetadataTypeEnum<'a>],
    is_var_args: bool,
) -> (function: FunctionType<'a>)
    ensures
        float_function_type(function, ty, params@, is_var_args),
        (forall|i: int| 0 <= i < params@.len() ==> scalar_type(#[trigger] params@[i]))
            ==> takes_scalars(function),
{
    ty.fn_type(params, is_var_args)
}

/// `PointerType::fn_type`: the type of functions that return this pointer type.
#[verifier::external_body]
pub(crate) fn pointer_fn_type<'a>(
    ty: PointerType<'a>,
    params: &[BasicMetadataTypeEnum<'a>],
    is_var_args: bool,
) -> (function: FunctionType<'a>)
    ensures
        pointer_function_type(function, ty, params@, is_var_args),
        (forall|i: int| 0 <= i < params@.len() ==> scalar_type(#[trigger] params@[i]))
            ==> takes_scalars(function),
{
    ty.fn_type(params, is_var_args)
}

/// `IntType::const_int`: the constant of this type with the given bits,
/// cut to the width of the type.
#[verifier::external_body]
pub(crate) fn int_const<'a>(ty: IntType<'a>, value: u64, sign_extend: bool) -> (constant: IntValue<
    'a,
>)
    ensures
        int_value_width(constant) == int_type_width(ty),
        int_type_width(ty) <= 64 ==> int_constant(constant) == Some(
            low_bits(value, int_type_width(ty)),
        ),
{
    ty.const_int(value, sign_extend)
}

/// `StructType::set_body`: gives the struct type its fields; returns whether
/// it had none before.
#[verifier::external_body]
pub(crate) fn struct_set_body<'a>(
    ty: StructType<'a>,
    fields: &[BasicTypeEnum<'a>],
    packed: bool,
) -> bool {
    ty.set_body(fields, packed)
}

/// `ArrayValue::get_type`, as a basic type.
#[verifier::external_body]
pub(crate) fn array_basic_type<'a>(value: ArrayValue<'a>) -> BasicTypeEnum<'a> {
    value.get_type().into()
}

/// `IntValue::get_type` and `IntType::get_bit_width`: the width of an integer
/// value, in bits.
#[verifier::external_body]
pub(crate) fn int_bit_width<'a>(value: IntValue<'a>) -> (width: u32)
    ensures
        width == int_value_width(value),
{
    value.get_type().get_bit_width()
}

/// An integer type as a parameter type.
#[verifier::external_body]
pub(crate) fn int_param<'a>(ty: IntType<'a>) -> (param: BasicMetadataTypeEnum<'a>)
    ensures
        param == int_param_type(ty),
        scalar_type(param),
{
    ty.into()
}

/// A float type as a parameter type.
#[verifier::external_body]
pub(crate) fn float_param<'a>(ty: FloatType<'a>) -> (param: BasicMetadataTypeEnum<'a>)
    ensures
        param == float_param_type(ty),
        scalar_type(param),
{
    ty.into()
}

/// A pointer type as a parameter type.
#[verifier::external_body]
pub(crate) fn pointer_param<'a>(ty: PointerType<'a>) -> (param: BasicMetadataTypeEnum<'a>)
    ensures
        param == pointer_param_type(ty),
        scalar_type(param),
{
    ty.into()
}

/// An integer type as a field type.
#[verifier::external_body]
pub(crate) fn int_field<'a>(ty: IntType<'a>) -> BasicTypeEnum<'a> {
    ty.into()
}

/// A pointer type as a field type.
#[verifier::external_body]
pub(crate) fn pointer_field<'a>(ty: PointerType<'a>) -> BasicTypeEnum<'a> {
    ty.into()
}

/// A struct type as a basic type.
#[verifier::external_body]
pub(crate) fn struct_basic_type<'a>(ty: StructType<'a>) -> BasicTypeEnum<'a> {
    ty.into()
}

/// A float type as a basic type.
#[verifier::external_body]
pub(crate) fn float_basic_type<'a>(ty: FloatType<'a>) -> BasicTypeEnum<'a> {
    ty.into()
}

/// Tells the variants of `BasicValueEnum` apart: an integer, a float and a
/// pointer keep their kind; an array, a struct and a vector are the rest.
#[verifier::external_body]
pub(crate) fn value_of_basic<'a>(raw: BasicValueEnum<'a>) -> (value: Value<'a>)
    ensures
        match value {
            Value::Int(x) => raw == int_basic(x),
            Value::Float(x) => raw == float_basic(x),
            Value::Pointer(x) => raw == pointer_basic(x),
            Value::Other(x) => x == basic_argument(raw),
        },
{
    match raw {
        BasicValueEnum::IntValue(x) => Value::Int(x),
        BasicValueEnum::FloatValue(x) => Value::Float(x),
        BasicValueEnum::PointerValue(x) => Value::Pointer(x),
        BasicValueEnum::ArrayValue(x) => Value::Other(x.into()),
        BasicValueEnum::StructValue(x) => Value::Other(x.into()),
        BasicValueEnum::VectorValue(x) => Value::Other(x.into()),
    }
}

/// An integer value as a basic value.
#[verifier::external_body]
pub(crate) fn basic_int<'a>(value: IntValue<'a>) -> (basic: BasicValueEnum<'a>)
    ensures
        basic == int_basic(value),
{
    value.into()
}

/// A float value as a basic value.
#[verifier::external_body]
pub(crate) fn basic_float<'a>(value: FloatValue<'a>) -> (basic: BasicValueEnum<'a>)
    ensures
        basic == float_basic(value),
{
    value.into()
}

/// A pointer value as a basic value.
#[verifier::external_body]
pub(crate) fn basic_pointer<'a>(value: PointerValue<'a>) -> (basic: BasicValueEnum<'a>)
    ensures
        basic == pointer_basic(value),
{
    value.into()
}

/// An array value as a basic value.
#[verifier::external_body]
pub(crate) fn basic_array<'a>(value: ArrayValue<'a>) -> (basic: BasicValueEnum<'a>)
    ensures
        basic == array_basic(value),
{
    value.into()
}

/// A basic value as a call argument.
#[verifier::external_body]
pub(crate) fn argument<'a>(value: BasicValueEnum<'a>) -> (handed: BasicMetadataValueEnum<'a>)
    ensures
        handed == basic_argument(value),
{
    value.into()
}

/// An array value as a call argument.
pub(crate) fn array_argument<'a>(value: ArrayValue<'a>) -> (handed: BasicMetadataValueEnum<'a>)
    ensures
        handed == basic_argument(array_basic(value)),
{
    argument(basic_array(value))
}

/// An integer value as a call argument.
pub(crate) fn int_argument<'a>(value: IntValue<'a>) -> (handed: BasicMetadataValueEnum<'a>)
    ensures
        handed == basic_argument(int_basic(value)),
{
    argument(basic_int(value))
}

/// A float value as a call argument.
pub(crate) fn float_argument<'a>(value: FloatValue<'a>) -> (handed: BasicMetadataValueEnum<'a>)
    ensures
        handed == basic_argument(float_basic(value)),
{
    argument(basic_float(value))
}

/// A pointer value as a call argument.
pub(crate) fn pointer_argument<'a>(value: PointerValue<'a>) -> (handed: BasicMetadataValueEnum<'a>)
    ensures
        handed == basic_argument(pointer_basic(value)),
{
    argument(basic_pointer(value))
}

/// `Module::add_function`: declares a function of the type `ty` in the
/// module.
#[verifier::external_body]
pub(crate) fn module_add_function<'a>(
    module: &BackendModule<'a>,
    name: &str,
    ty: FunctionType<'a>,
    linkage: Option<Linkage>,
) -> (function: FunctionValue<'a>)
    ensures
        declared_as(function, name@),
        type_of_function(function) == ty,
        takes_scalars(ty) ==> plain_function(function),
{
    module.add_function(name, ty, linkage)
}

/// `Module::add_global`: declares a global of a struct type in the module.
#[verifier::external_body]
pub(crate) fn module_add_global<'a>(
    module: &BackendModule<'a>,
    ty: StructType<'a>,
    space: Option<AddressSpace>,
    name: &str,
) -> GlobalValue<'a> {
    module.add_global(ty, space, name)
}

/// `FunctionValue::get_type`: the type that the function was declared
/// with.
#[verifier::external_body]
pub(crate) fn function_type_of<'a>(function: FunctionValue<'a>) -> (ty: FunctionType<'a>)
    ensures
        ty == type_of_function(function),
        takes_scalars(ty) == plain_function(function),
{
    function.get_type()
}

/// `FunctionType::eq`: whether two function types of the backend are one
/// type.
#[verifier::external_body]
pub(crate) fn same_function_type<'a>(one: FunctionType<'a>, other: FunctionType<'a>) -> (same: bool)
    ensures
        same ==> one == other,
{
    one == other
}

/// `Module::get_function`: the function of that name, if the module has one.
#[verifier::external_body]
pub(crate) fn module_get_function<'a>(
    module: &BackendModule<'a>,
    name: &str,
) -> (found: Option<FunctionValue<'a>>)
    ensures
        found matches Some(function) ==> found_as(function, name@),
{
    module.get_function(name)
}

/// `Module::get_global`: the global of that name, if the module has one.
#[verifier::external_body]
pub(crate) fn module_get_global<'a>(
    module: &BackendModule<'a>,
    name: &str,
) -> Option<GlobalValue<'a>> {
    module.get_global(name)
}

/// `Module::get_struct_type`: the struct type of that name, if the module's
/// context has one.
#[verifier::external_body]
pub(crate) fn module_get_struct_type<'a>(
    module: &BackendModule<'a>,
    name: &str,
) -> Option<StructType<'a>> {
    module.get_struct_type(name)
}

/// `Module::verify`, then `Module::clone`: a copy of a module that the
/// backend finds valid. The backend's own `clone` aborts on an invalid
/// module, so the copy is made only after `verify` has passed.
#[verifier::external_body]
pub(crate) fn module_checked_clone<'a>(module: &BackendModule<'a>) -> (r: Result<
    BackendModule<'a>,
    LLVMString,
>)
    ensures
        r is Ok ==> copy_of(r->Ok_0, *module),
{
    match module.verify() {
        Ok(()) => Ok(module.clone()),
        Err(e) => Err(e),
    }
}

/// `Module::get_context` of two modules, compared: whether they live in one
/// context.
#[verifier::external_body]
pub(crate) fn modules_share_context<'a>(one: &BackendModule<'a>, other: &BackendModule<'a>) -> (same:
    bool)
    ensures
        same == share_context(*one, *other),
{
    one.get_context() == other.get_context()
}

/// `Module::link_in_module`: merges `other` into `module`. The backend
/// links modules of one context only, so that is asked of the caller.
#[verifier::external_body]
pub(crate) fn module_link_in<'a>(module: &BackendModule<'a>, other: BackendModule<'a>) -> (r: Result<
    (),
    LLVMString,
>)
    requires
        share_context(*module, other),
    ensures
        r is Ok ==> linked_into(*module, other),
{
    module.link_in_module(other)
}

/// `Module::print_to_string`: the module's textual form.
#[verifier::external_body]
pub(crate) fn module_print_to_string<'a>(module: &BackendModule<'a>) -> String {
    module.print_to_string().to_string()
}

/// `GlobalValue::as_pointer_value`: the address of a global.
#[verifier::external_body]
pub(crate) fn global_as_pointer<'a>(global: GlobalValue<'a>) -> PointerValue<'a> {
    global.as_pointer_value()
}

/// `FunctionValue::get_nth_param`: the parameter at that position, if the
/// function has that many. The backend adds one to the position before it
/// compares, so the largest position is left out. It hands out integers,
/// floats and pointers only, so a function with such parameters is asked
/// of the caller.
#[verifier::external_body]
pub(crate) fn function_nth_param<'a>(function: FunctionValue<'a>, nth: u32) -> (r: Option<
    BasicValueEnum<'a>,
>)
    requires
        nth < u32::MAX,
        plain_function(function),
    ensures
        r matches Some(value) ==> parameter_of(value, function, nth),
{
    function.get_nth_param(nth)
}

/// `CallSiteValue::try_as_basic_value`: the value that a call returns, if
/// it returns one. The backend hands out integers, floats and pointers
/// only, so a call of a function that returns one is asked of the caller.
#[verifier::external_body]
pub(crate) fn call_result<'a>(call: CallSiteValue<'a>) -> (r: Option<BasicValueEnum<'a>>)
    requires
        plain_call(call),
    ensures
        r matches Some(value) ==> returned_by(value, call),
{
    call.try_as_basic_value().left()
}

/// `Builder::position_at_end`: further instructions go to the end of `block`.
#[verifier::external_body]
pub(crate) fn builder_position_at_end<'a>(builder: &Builder<'a>, block: BasicBlock<'a>) {
    builder.position_at_end(block)
}

/// `Builder::build_alloca`: stack storage for one value of `ty`.
#[verifier::external_body]
pub(crate) fn builder_alloca<'a>(
    builder: &Builder<'a>,
    ty: BasicTypeEnum<'a>,
    name: &str,
) -> Result<PointerValue<'a>, BuilderError> {
    builder.build_alloca(ty, name)
}

/// `Builder::build_store`: puts `value` where `ptr` points to.
#[verifier::external_body]
pub(crate) fn builder_store<'a>(
    builder: &Builder<'a>,
    ptr: PointerValue<'a>,
    value: BasicValueEnum<'a>,
) -> (r: Result<(), BuilderError>)
    ensures
        r is Ok ==> stored(ptr, value),
{
    match builder.build_store(ptr, value) {
        Ok(_) => Ok(()),
        Err(e) => Err(e),
    }
}

/// Stores an array value.
pub(crate) fn builder_store_array<'a>(
    builder: &Builder<'a>,
    ptr: PointerValue<'a>,
    value: ArrayValue<'a>,
) -> (r: Result<(), BuilderError>)
    ensures
        r is Ok ==> stored(ptr, array_basic(value)),
{
    builder_store(builder, ptr, basic_array(value))
}

/// Stores an integer value.
pub(crate) fn builder_store_int<'a>(
    builder: &Builder<'a>,
    ptr: PointerValue<'a>,
    value: IntValue<'a>,
) -> (r: Result<(), BuilderError>)
    ensures
        r is Ok ==> stored(ptr, int_basic(value)),
{
    builder_store(builder, ptr, basic_int(value))
}

/// Stores a float value.
pub(crate) fn builder_store_float<'a>(
    builder: &Builder<'a>,
    ptr: PointerValue<'a>,
    value: FloatValue<'a>,
) -> (r: Result<(), BuilderError>)
    ensures
        r is Ok ==> stored(ptr, float_basic(value)),
{
    builder_store(builder, ptr, basic_float(value))
}

/// Stores a pointer value.
pub(crate) fn builder_store_pointer<'a>(
    builder: &Builder<'a>,
    ptr: PointerValue<'a>,
    value: PointerValue<'a>,
) -> (r: Result<(), BuilderError>)
    ensures
        r is Ok ==> stored(ptr, pointer_basic(value)),
{
    builder_store(builder, ptr, basic_pointer(value))
}

/// `Builder::build_load`: the value that `ptr` points to. The backend
/// hands out first-class values only, which the fields of a struct are, so
/// the address of a field is asked of the caller.
#[verifier::external_body]
pub(crate) fn builder_load<'a>(
    builder: &Builder<'a>,
    ptr: PointerValue<'a>,
    name: &str,
) -> (r: Result<BasicValueEnum<'a>, BuilderError>)
    requires
        field_address(ptr),
    ensures
        r is Ok ==> loaded_from(r->Ok_0, ptr),
{
    builder.build_load(ptr, name)
}

/// `Builder::build_struct_gep`: the address of a field of the struct that
/// `ptr` points to.
#[verifier::external_body]
pub(crate) fn builder_struct_gep<'a>(
    builder: &Builder<'a>,
    ptr: PointerValue<'a>,
    index: u32,
    name: &str,
) -> (r: Result<PointerValue<'a>, BuilderError>)
    ensures
        r is Ok ==> field_address(r->Ok_0) && field_of(r->Ok_0, ptr, index),
{
    builder.build_struct_gep(ptr, index, name)
}

/// `Builder::build_pointer_cast`: `ptr` seen as a pointer of type `to`.
#[verifier::external_body]
pub(crate) fn builder_pointer_cast<'a>(
    builder: &Builder<'a>,
    ptr: PointerValue<'a>,
    to: PointerType<'a>,
    name: &str,
) -> (r: Result<PointerValue<'a>, BuilderError>)
    ensures
        r is Ok ==> cast_of(r->Ok_0, ptr),
{
    builder.build_pointer_cast(ptr, to, name)
}

/// `Builder::build_bit_cast` of an integer value to a float type of the
/// same width: the value that is built is a float of the type `to`, made of
/// `value`. The backend casts bits between types of one width only, so
/// that is asked of the caller.
#[verifier::external_body]
pub(crate) fn builder_bitcast_to_float<'a>(
    builder: &Builder<'a>,
    value: IntValue<'a>,
    to: FloatType<'a>,
    name: &str,
) -> (r: Result<Option<FloatValue<'a>>, BuilderError>)
    requires
        float_kind_name(to) == "float"@ && int_value_width(value) == 32 || float_kind_name(to)
            == "double"@ && int_value_width(value) == 64,
    ensures
        r matches Ok(Some(x)) ==> float_pattern(x, value) && float_type_name(x)
            == float_kind_name(to),
{
    match builder.build_bit_cast(value, to, name) {
        Ok(BasicValueEnum::FloatValue(x)) => Ok(Some(x)),
        Ok(_) => Ok(None),
        Err(e) => Err(e),
    }
}

/// `Builder::build_int_add`: the sum of two integer values, of the type of
/// the left one. The backend adds integers of one type only, so one width
/// is asked of the caller.
#[verifier::external_body]
pub(crate) fn builder_int_add<'a>(
    builder: &Builder<'a>,
    lhs: IntValue<'a>,
    rhs: IntValue<'a>,
    name: &str,
) -> (r: Result<IntValue<'a>, BuilderError>)
    requires
        int_value_width(lhs) == int_value_width(rhs),
    ensures
        r is Ok ==> int_sum(r->Ok_0, lhs, rhs) && int_value_width(r->Ok_0) == int_value_width(lhs),
{
    builder.build_int_add(lhs, rhs, name)
}

/// `Builder::build_int_sub`: the difference of two integer values, of the
/// type of the left one. The backend subtracts integers of one type only,
/// so one width is asked of the caller.
#[verifier::external_body]
pub(crate) fn builder_int_sub<'a>(
    builder: &Builder<'a>,
    lhs: IntValue<'a>,
    rhs: IntValue<'a>,
    name: &str,
) -> (r: Result<IntValue<'a>, BuilderError>)
    requires
        int_value_width(lhs) == int_value_width(rhs),
    ensures
        r is Ok ==> int_difference(r->Ok_0, lhs, rhs) && int_value_width(r->Ok_0)
            == int_value_width(lhs),
{
    builder.build_int_sub(lhs, rhs, name)
}

/// `Builder::build_int_z_extend`: `value` widened to `to` with zero bits.
/// What is built is of the type `to`. The backend extends to a wider type
/// only, so that is asked of the caller.
#[verifier::external_body]
pub(crate) fn builder_int_z_extend<'a>(
    builder: &Builder<'a>,
    value: IntValue<'a>,
    to: IntType<'a>,
    name: &str,
) -> (r: Result<IntValue<'a>, BuilderError>)
    requires
        int_value_width(value) < int_type_width(to),
    ensures
        r is Ok ==> int_value_width(r->Ok_0) == int_type_width(to) && int_extended(
            r->Ok_0,
            value,
        ),
{
    builder.build_int_z_extend(value, to, name)
}

/// `Builder::build_float_ext`: a 32-bit float widened to the 64-bit float
/// type `to`. What is built is of the type `to`. The backend extends to a
/// wider type only, so that is asked of the caller.
#[verifier::external_body]
pub(crate) fn builder_float_ext<'a>(
    builder: &Builder<'a>,
    value: FloatValue<'a>,
    to: FloatType<'a>,
    name: &str,
) -> (r: Result<FloatValue<'a>, BuilderError>)
    requires
        float_type_name(value) == "float"@,
        float_kind_name(to) == "double"@,
    ensures
        r is Ok ==> float_type_name(r->Ok_0) == float_kind_name(to) && float_extended(
            r->Ok_0,
            value,
        ),
{
    builder.build_float_ext(value, to, name)
}

/// `Builder::build_call`: a call of `function` with `args`, in this order.
#[verifier::external_body]
pub(crate) fn builder_call<'a>(
    builder: &Builder<'a>,
    function: FunctionValue<'a>,
    args: &[BasicMetadataValueEnum<'a>],
    name: &str,
) -> (r: Result<CallSiteValue<'a>, BuilderError>)
    ensures
        r is Ok ==> call_made(r->Ok_0, function, args@),
        r is Ok && plain_function(function) ==> plain_call(r->Ok_0),
{
    builder.build_call(function, args, name)
}

/// `Builder::build_return`: ends the block by returning `value`.
#[verifier::external_body]
pub(crate) fn builder_return<'a>(
    builder: &Builder<'a>,
    value: BasicValueEnum<'a>,
) -> (r: Result<(), BuilderError>)
    ensures
        r is Ok ==> return_built(value),
{
    match builder.build_return(Some(&value)) {
        Ok(_) => Ok(()),
        Err(e) => Err(e),
    }
}

/// Returns an integer value.
pub(crate) fn builder_return_int<'a>(builder: &Builder<'a>, value: IntValue<'a>) -> (r: Result<
    (),
    BuilderError,
>)
    ensures
        r is Ok ==> return_built(int_basic(value)),
{
    builder_return(builder, basic_int(value))
}

/// Returns a float value.
pub(crate) fn builder_return_float<'a>(builder: &Builder<'a>, value: FloatValue<'a>) -> (r: Result<
    (),
    BuilderError,
>)
    ensures
        r is Ok ==> return_built(float_basic(value)),
{
    builder_return(builder, basic_float(value))
}

/// Returns a pointer value.
pub(crate) fn builder_return_pointer<'a>(builder: &Builder<'a>, value: PointerValue<'a>) -> (r: Result<
    (),
    BuilderError,
>)
    ensures
        r is Ok ==> return_built(pointer_basic(value)),
{
    builder_return(builder, basic_pointer(value))
}

} // verus!
