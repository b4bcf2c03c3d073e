use lowir::target::{Architecture, System, Target};
use lowir::types::{align_up_checked, ArrTypeID, IntSize, StructTypeID, Type, Types};

fn linux() -> Target {
    Target::RealSystem(Architecture::X86_64, System::Linux)
}

#[test]
fn primitive_layouts_match_the_table() {
    let types = Types::new();
    assert_eq!(types.layout(Type::Unit, linux()), (0, 1));
    assert_eq!(types.layout(Type::Bool, linux()), (1, 1));
    assert_eq!(types.layout(Type::Pointer, linux()), (8, 8));
    assert_eq!(types.layout(Type::Integer(8), linux()), (1, 1));
    assert_eq!(types.layout(Type::Integer(16), linux()), (2, 2));
    assert_eq!(types.layout(Type::Integer(32), linux()), (4, 4));
    assert_eq!(types.layout(Type::Integer(64), linux()), (8, 8));
    assert_eq!(types.layout(Type::Integer(1), linux()), (1, 1));
    assert_eq!(types.layout(Type::Integer(9), linux()), (2, 2));
    assert_eq!(types.layout(Type::Integer(24), linux()), (3, 3));
    assert_eq!(types.layout(Type::Integer(256), linux()), (32, 32));
    assert_eq!(types.layout(Type::from(IntSize::Int), linux()), (4, 4));
}

#[test]
fn layout_is_the_same_for_bare_metal() {
    let types = Types::new();
    let bare = Target::RealSystem(Architecture::X86_64, System::BareMetal);
    assert_eq!(types.layout(Type::Pointer, bare), (8, 8));
}

#[test]
fn struct_of_byte_then_int_pads_before_the_int() {
    let mut types = Types::new();
    let id = types.make_struct(vec![Type::Integer(8), Type::Integer(32)]);
    assert_eq!(types.layout(Type::Struct(id), linux()), (8, 4));
    let layout = types.struct_layout(id).unwrap();
    assert_eq!(layout.size, 8);
    assert_eq!(layout.alignment, 4);
    assert_eq!(layout.field_offsets, vec![0, 4]);
}

#[test]
fn struct_of_int_then_byte_pads_at_the_end() {
    let mut types = Types::new();
    let id = types.make_struct(vec![Type::Integer(32), Type::Integer(8)]);
    assert_eq!(types.layout(Type::Struct(id), linux()), (8, 4));
    let layout = types.struct_layout(id).unwrap();
    assert_eq!(layout.field_offsets, vec![0, 4]);
}

#[test]
fn array_of_three_ints() {
    let mut types = Types::new();
    let id = types.make_array(Type::Integer(32), 3);
    assert_eq!(types.layout(Type::Array(id), linux()), (12, 4));
}

#[test]
fn empty_array_takes_no_space_and_keeps_the_alignment() {
    let mut types = Types::new();
    let id = types.make_array(Type::Integer(64), 0);
    assert_eq!(types.layout(Type::Array(id), linux()), (0, 8));
}

#[test]
fn empty_struct_has_size_zero_and_alignment_one() {
    let mut types = Types::new();
    let id = types.make_struct(vec![]);
    assert_eq!(types.layout(Type::Struct(id), linux()), (0, 1));
    assert_eq!(types.struct_layout(id).unwrap().field_offsets, Vec::<u64>::new());
}

#[test]
fn nested_aggregates_are_laid_out_recursively() {
    let mut types = Types::new();
    let pair = types.make_struct(vec![Type::Integer(8), Type::Integer(16)]);
    let pairs = types.make_array(Type::Struct(pair), 3);
    let outer = types.make_struct(vec![Type::Bool, Type::Array(pairs), Type::Pointer]);
    assert_eq!(types.layout(Type::Struct(pair), linux()), (4, 2));
    assert_eq!(types.layout(Type::Array(pairs), linux()), (12, 2));
    assert_eq!(types.layout(Type::Struct(outer), linux()), (24, 8));
    assert_eq!(types.struct_layout(outer).unwrap().field_offsets, vec![0, 2, 16]);
}

#[test]
fn the_same_array_is_interned_once() {
    let mut types = Types::new();
    let a = types.make_array(Type::Integer(32), 4);
    let b = types.make_array(Type::Integer(32), 4);
    assert_eq!(a, b);
    assert_eq!(a, ArrTypeID(0));
    let other_length = types.make_array(Type::Integer(32), 5);
    let other_member = types.make_array(Type::Integer(16), 4);
    assert_ne!(a, other_length);
    assert_ne!(a, other_member);
    assert_ne!(other_length, other_member);
    assert_eq!(types.make_array(Type::Integer(32), 5), other_length);
}

#[test]
fn the_same_struct_is_interned_once() {
    let mut types = Types::new();
    let a = types.make_struct(vec![Type::Integer(32), Type::Integer(8)]);
    let b = types.make_struct(vec![Type::Integer(32), Type::Integer(8)]);
    assert_eq!(a, b);
    assert_eq!(a, StructTypeID(0));
    let swapped = types.make_struct(vec![Type::Integer(8), Type::Integer(32)]);
    let longer = types.make_struct(vec![Type::Integer(32), Type::Integer(8), Type::Bool]);
    let shorter = types.make_struct(vec![Type::Integer(32)]);
    assert_ne!(a, swapped);
    assert_ne!(a, longer);
    assert_ne!(a, shorter);
    assert_eq!(types.make_struct(vec![Type::Integer(8), Type::Integer(32)]), swapped);
}

#[test]
fn interned_types_can_be_read_back() {
    let mut types = Types::new();
    let arr = types.make_array(Type::Pointer, 7);
    let st = types.make_struct(vec![Type::Array(arr), Type::Bool]);
    assert_eq!(types.array(arr).id(), arr);
    assert_eq!(types.array(arr).member(), Type::Pointer);
    assert_eq!(types.array(arr).length(), 7);
    assert_eq!(types.structure(st).id(), st);
    assert_eq!(types.structure(st).members(), &vec![Type::Array(arr), Type::Bool]);
    assert!(types.is_valid(Type::Array(arr)));
    assert!(!types.is_valid(Type::Array(ArrTypeID(1))));
    assert!(!types.is_valid(Type::Integer(0)));
    assert!(!types.is_valid(Type::Integer(257)));
    assert!(types.is_valid(Type::Integer(256)));
}

#[test]
fn a_size_of_two_to_the_64_is_no_layout() {
    let mut types = Types::new();
    let big = types.make_array(Type::Integer(64), 1 << 61);
    assert_eq!(types.checked_layout(Type::Array(big)), None);
    let fits = types.make_array(Type::Integer(64), (1 << 61) - 1);
    assert_eq!(types.checked_layout(Type::Array(fits)), Some((u64::MAX - 7, 8)));
    let none_of_big = types.make_array(Type::Array(big), 0);
    assert_eq!(types.checked_layout(Type::Array(none_of_big)), Some((0, 8)));
    let with_big = types.make_struct(vec![Type::Bool, Type::Array(big)]);
    assert!(types.struct_layout(with_big).is_none());
    assert_eq!(types.alignment(Type::Struct(with_big)), 8);
}

#[test]
fn align_up_gives_the_next_multiple() {
    assert_eq!(align_up_checked(0, 4), Some(0));
    assert_eq!(align_up_checked(1, 4), Some(4));
    assert_eq!(align_up_checked(4, 4), Some(4));
    assert_eq!(align_up_checked(5, 3), Some(6));
    assert_eq!(align_up_checked(17, 1), Some(17));
    assert_eq!(align_up_checked(u64::MAX, 2), None);
    assert_eq!(align_up_checked(u64::MAX, 1), Some(u64::MAX));
}

#[test]
fn int_sizes() {
    assert_eq!(IntSize::Byte.bits(), 8);
    assert_eq!(IntSize::Short.bits(), 16);
    assert_eq!(IntSize::Int.bits(), 32);
    assert_eq!(IntSize::Long.bits(), 64);
    assert_eq!(IntSize::Long.bytes(), 8);
    assert_eq!(IntSize::from_bits(16), Some(IntSize::Short));
    assert_eq!(IntSize::from_bits(24), None);
    assert_eq!(Type::integer(24), Some(Type::Integer(24)));
    assert_eq!(Type::integer(0), None);
    assert_eq!(Type::integer(257), None);
    assert!(Type::Integer(8).is_integer());
    assert!(!Type::Pointer.is_integer());
    assert!(Type::Pointer.is_pointer());
    assert_eq!(Type::from(ArrTypeID(3)), Type::Array(ArrTypeID(3)));
    assert_eq!(Type::from(StructTypeID(2)), Type::Struct(StructTypeID(2)));
}
