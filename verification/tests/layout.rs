use jlrs::data::layout::bool::Bool;
use jlrs::data::layout::char::Char;
use jlrs::data::layout::julia_enum::PrimitiveType;
use jlrs::data::layout::nothing::Nothing;
use jlrs::data::layout::ssa_value::SSAValue;
use jlrs::data::layout::tuple::Tuple;
use jlrs::data::layout::typed_layout::TypedLayout;

#[test]
fn bool_new_and_back() {
    assert_eq!(Bool::new(true).as_i8(), 1);
    assert_eq!(Bool::new(false).as_i8(), 0);
    assert_eq!(Bool::new(true).as_bool(), true);
    assert_eq!(Bool::new(false).as_bool(), false);
    assert_eq!(Bool::new(true).try_as_bool(), Some(true));
    assert_eq!(Bool::new(false).try_as_bool(), Some(false));
}

#[test]
fn bool_invalid_values() {
    let b = Bool::from_i8(2);
    assert_eq!(b.as_i8(), 2);
    assert_eq!(b.try_as_bool(), None);
    assert!(b.as_bool());
    let n = Bool::from_i8(-1);
    assert_eq!(n.try_as_bool(), None);
    assert!(n.as_bool());
}

#[test]
fn bool_ordering_and_equality() {
    assert!(Bool::new(false) < Bool::new(true));
    assert!(Bool::new(true) == Bool::from_i8(1));
    assert!(Bool::new(true) != Bool::from_i8(2));
}

#[test]
fn char_new_and_back() {
    let c = Char::new('a');
    assert_eq!(c.as_u32(), 97);
    assert_eq!(c.try_as_char(), Some('a'));
    let e = Char::new('\u{1F600}');
    assert_eq!(e.as_u32(), 0x1F600);
    assert_eq!(e.try_as_char(), Some('\u{1F600}'));
}

#[test]
fn char_invalid_values() {
    assert_eq!(Char::from_u32(0xD800).try_as_char(), None);
    assert_eq!(Char::from_u32(0xDFFF).try_as_char(), None);
    assert_eq!(Char::from_u32(0x110000).try_as_char(), None);
    assert_eq!(Char::from_u32(0xD7FF).try_as_char(), Some('\u{D7FF}'));
    assert_eq!(Char::from_u32(0xE000).try_as_char(), Some('\u{E000}'));
    assert_eq!(Char::from_u32(0x10FFFF).try_as_char(), Some('\u{10FFFF}'));
}

#[test]
fn ssa_value_id() {
    assert_eq!(SSAValue::new(42).id(), 42);
    assert_eq!(SSAValue::new(-3).id(), -3);
}

#[test]
fn typed_layout_round_trip() {
    let t: TypedLayout<Bool, Bool> = TypedLayout::new(Bool::new(true));
    assert!(t.clone().into_layout() == Bool::new(true));
    let r: TypedLayout<u32, Char> = TypedLayout::new_relaxed(7u32);
    assert_eq!(r.into_layout(), 7);
}

#[test]
fn primitive_sizes() {
    assert_eq!(<u8 as PrimitiveType>::N_BITS, 1);
    assert_eq!(<i64 as PrimitiveType>::N_BITS, 8);
    assert_eq!(<Char as PrimitiveType>::N_BITS, 4);
    assert_eq!(<usize as PrimitiveType>::N_BITS, std::mem::size_of::<usize>());
}

#[test]
fn unit_layouts() {
    assert_eq!(Nothing, Nothing);
    assert_eq!(Tuple, Tuple);
}

#[test]
fn debug_texts() {
    assert_eq!(Bool::new(false).debug_string(), "false");
    assert_eq!(Bool::new(true).debug_string(), "true");
    assert_eq!(Bool::from_i8(2).debug_string(), "2 <invalid bool>");
    assert_eq!(Bool::from_i8(-128).debug_string(), "-128 <invalid bool>");
    assert_eq!(Char::new('a').debug_string(), "a");
    assert_eq!(Char::from_u32(0xD800).debug_string(), "0x0000d800 <invalid char>");
    assert_eq!(Char::from_u32(0xFFFF_FFFF).debug_string(), "0xffffffff <invalid char>");
    assert_eq!(SSAValue::new(42).debug_string(), "SSAValue<42>");
    assert_eq!(SSAValue::new(-7).debug_string(), "SSAValue<-7>");
}

struct Int64Layout;

impl jlrs::data::layout::valid_layout::ValidLayout for Int64Layout {
    fn valid_layout(ty: usize) -> bool {
        ty == 64
    }
}

fn matches<T: jlrs::data::layout::matching_layout::MatchingLayout>(ty: usize) -> bool {
    T::valid_layout(ty)
}

#[test]
fn matching_layout_follows_valid_layout() {
    assert!(matches::<Int64Layout>(64));
    assert!(!matches::<Int64Layout>(32));
}
