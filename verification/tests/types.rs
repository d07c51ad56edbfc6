use cosmicc::error::Location;
use cosmicc::hir::{ArrayType, BinaryOp, ComparisonToken, Field, FunctionType, Type, TypeKind};
use cosmicc::ir::IrType;
use cosmicc::text::{decimal_text, hexadecimal_text};
use cosmicc::types::{
    abi_parameter_type, abi_scalar_type, aggregate_member_offset, align_up, ir_type,
    is_address_valued_type, is_by_value_aggregate, is_signed_integer_type, promoted_type,
};

const HERE: Location = Location { file: 0, start: 0, end: 0 };

fn ty(kind: TypeKind, size: u64, scalar: bool) -> Type {
    Type { kind, size: Ok(size), align: Ok(size), scalar, repr: String::new() }
}

fn int_type() -> Type {
    ty(TypeKind::Int(true), 4, true)
}

fn array() -> Type {
    ty(TypeKind::Array(Box::new(int_type()), ArrayType::Fixed(2)), 8, false)
}

fn pointer() -> Type {
    ty(TypeKind::Pointer(Box::new(int_type())), 4, true)
}

fn structure(fields: Vec<Field>) -> Type {
    ty(TypeKind::Struct(fields), 8, false)
}

fn function() -> Type {
    ty(
        TypeKind::Function(FunctionType {
            return_type: Box::new(int_type()),
            params: Vec::new(),
            varargs: false,
        }),
        1,
        true,
    )
}

#[test]
fn maps_float_and_double_to_cranelift_scalar_types() {
    assert_eq!(ir_type(&ty(TypeKind::Float, 4, true), HERE).unwrap(), IrType::F32);
    assert_eq!(ir_type(&ty(TypeKind::Double, 8, true), HERE).unwrap(), IrType::F64);
}

#[test]
fn type_lowering_explicitly_classifies_every_frontend_type_family() {
    let scalar = |kind| ir_type(&ty(kind, 4, true), HERE).unwrap();
    assert_eq!(scalar(TypeKind::Bool), IrType::I8);
    assert_eq!(scalar(TypeKind::Char(true)), IrType::I8);
    assert_eq!(scalar(TypeKind::Short(true)), IrType::I16);
    assert_eq!(scalar(TypeKind::Int(true)), IrType::I32);
    assert_eq!(scalar(TypeKind::Long(true)), IrType::I32);
    assert_eq!(scalar(TypeKind::Float), IrType::F32);
    assert_eq!(scalar(TypeKind::Double), IrType::F64);
    for ty in [
        ty(TypeKind::Void, 0, false),
        array(),
        ty(TypeKind::VaList, 4, false),
        ty(TypeKind::Error, 0, false),
    ] {
        assert!(ir_type(&ty, HERE).is_err());
    }
}

#[test]
fn binary_operator_enum_is_exhaustively_audited() {
    fn kind(operator: BinaryOp) -> &'static str {
        match operator {
            BinaryOp::LogicalOr => "logical-or",
            BinaryOp::BitwiseOr => "bitwise-or",
            BinaryOp::LogicalAnd => "logical-and",
            BinaryOp::BitwiseAnd => "bitwise-and",
            BinaryOp::Xor => "xor",
            BinaryOp::Mul => "mul",
            BinaryOp::Div => "div",
            BinaryOp::Mod => "mod",
            BinaryOp::Add => "add",
            BinaryOp::Sub => "sub",
            BinaryOp::Shl => "shl",
            BinaryOp::Shr => "shr",
            BinaryOp::Compare(_) => "compare",
            BinaryOp::Assign => "assign",
        }
    }
    assert_eq!(kind(BinaryOp::Add), "add");
    assert_eq!(kind(BinaryOp::Compare(ComparisonToken::Less)), "compare");
}

#[test]
fn types_without_a_value_say_why() {
    let message = |ty: Type| ir_type(&ty, HERE).unwrap_err().to_string();
    assert_eq!(
        message(ty(TypeKind::Void, 0, false)),
        "void has no SIA32 SSA value representation"
    );
    assert_eq!(
        message(array()),
        "array values are address-only on SIA32 and must decay or use aggregate storage"
    );
    assert_eq!(
        message(structure(Vec::new())),
        "struct/union values are address-only on SIA32 and use aggregate ABI/storage lowering"
    );
    assert_eq!(
        message(ty(TypeKind::Union(Vec::new()), 4, false)),
        "struct/union values are address-only on SIA32 and use aggregate ABI/storage lowering"
    );
    assert_eq!(
        message(ty(TypeKind::VaList, 4, false)),
        "va_list has no standalone SIA32 scalar representation"
    );
    assert_eq!(
        message(ty(TypeKind::Error, 0, false)),
        "frontend error type cannot reach SIA32 type lowering"
    );
}

#[test]
fn objects_and_functions_travel_as_addresses() {
    for ty in [array(), structure(Vec::new()), function()] {
        assert_eq!(abi_parameter_type(&ty, HERE).unwrap(), IrType::I32);
        assert!(is_address_valued_type(&ty));
    }
    assert!(!is_address_valued_type(&pointer()));
    assert!(is_by_value_aggregate(&structure(Vec::new())));
    assert!(!is_by_value_aggregate(&array()));
    assert_eq!(abi_scalar_type(&ty(TypeKind::Double, 8, true), HERE).unwrap(), IrType::F64);
    assert_eq!(abi_parameter_type(&ty(TypeKind::Char(false), 1, true), HERE).unwrap(), IrType::I8);
}

#[test]
fn unnamed_arguments_are_promoted() {
    for kind in [
        TypeKind::Bool,
        TypeKind::Char(true),
        TypeKind::Short(false),
        TypeKind::Enum,
        TypeKind::Int(true),
    ] {
        assert_eq!(promoted_type(&ty(kind, 1, true), HERE).unwrap(), IrType::I32);
    }
    assert_eq!(promoted_type(&ty(TypeKind::Double, 8, true), HERE).unwrap(), IrType::F64);
    assert!(promoted_type(&array(), HERE).is_err());
}

#[test]
fn signedness_follows_the_type() {
    assert!(is_signed_integer_type(&int_type()));
    assert!(is_signed_integer_type(&ty(TypeKind::Enum, 4, true)));
    assert!(!is_signed_integer_type(&ty(TypeKind::Char(false), 1, true)));
    assert!(!is_signed_integer_type(&ty(TypeKind::Bool, 1, true)));
    assert!(!is_signed_integer_type(&pointer()));
}

fn field(id: u32, ctype: Type) -> Field {
    Field { id, ctype }
}

#[test]
fn members_lie_at_aligned_offsets() {
    let pair = structure(vec![
        field(1, ty(TypeKind::Char(true), 1, true)),
        field(2, int_type()),
        field(3, ty(TypeKind::Short(true), 2, true)),
    ]);
    assert_eq!(aggregate_member_offset(&pair, 1, HERE).unwrap(), 0);
    assert_eq!(aggregate_member_offset(&pair, 2, HERE).unwrap(), 4);
    assert_eq!(aggregate_member_offset(&pair, 3, HERE).unwrap(), 8);
    assert_eq!(
        aggregate_member_offset(&pair, 4, HERE).unwrap_err().to_string(),
        "unknown aggregate member"
    );
    let union = ty(TypeKind::Union(vec![field(1, int_type())]), 4, false);
    assert_eq!(aggregate_member_offset(&union, 9, HERE).unwrap(), 0);
    assert_eq!(
        aggregate_member_offset(&int_type(), 1, HERE).unwrap_err().to_string(),
        "member offset requested for non-aggregate type"
    );
    let huge = structure(vec![
        field(1, ty(TypeKind::Struct(Vec::new()), u64::MAX - 3, false)),
        field(2, int_type()),
        field(3, int_type()),
    ]);
    assert!(aggregate_member_offset(&huge, 3, HERE).is_err());
    let mut open = ty(TypeKind::Struct(Vec::new()), 1, false);
    open.size = Err("cannot take sizeof incomplete struct".into());
    let holder = structure(vec![field(1, open), field(2, int_type())]);
    assert_eq!(aggregate_member_offset(&holder, 1, HERE).unwrap(), 0);
    assert_eq!(
        aggregate_member_offset(&holder, 2, HERE).unwrap_err().to_string(),
        "cannot take sizeof incomplete struct"
    );
}

#[test]
fn offsets_are_rounded_up() {
    assert_eq!(align_up(0, 4), 0);
    assert_eq!(align_up(5, 4), 8);
    assert_eq!(align_up(8, 4), 8);
    assert_eq!(align_up(9, 1), 9);
    assert_eq!(align_up(9, 0), 9);
}

#[test]
fn numbers_are_rendered() {
    assert_eq!(decimal_text(0), "0");
    assert_eq!(decimal_text(10), "10");
    assert_eq!(decimal_text(u64::MAX), "18446744073709551615");
    assert_eq!(hexadecimal_text(0xbeef, 8), "0000beef");
    assert_eq!(hexadecimal_text(0xa, 2), "0a");
}

#[test]
fn machine_types_have_widths() {
    assert_eq!(IrType::I8.bits(), 8);
    assert_eq!(IrType::I16.bits(), 16);
    assert_eq!(IrType::I32.bits(), 32);
    assert_eq!(IrType::F32.bits(), 32);
    assert_eq!(IrType::F64.bits(), 64);
    assert!(IrType::F32.is_float() && IrType::F64.is_float() && !IrType::I32.is_float());
}
