use std::collections::hash_map::DefaultHasher;
use std::hash::{Hash, Hasher};

use vulkanalia::strings::StringArray;

fn hash(hash: impl Hash) -> u64 {
    let mut hasher = DefaultHasher::new();
    hash.hash(&mut hasher);
    hasher.finish()
}

fn assert_cmp_eq<const N: usize>(left: StringArray<N>, right: StringArray<N>) {
    assert_eq!(left, right);
    assert_eq!(hash(left), hash(right));
}

fn assert_cmp_ne<const N: usize>(left: StringArray<N>, right: StringArray<N>) {
    assert_ne!(left, right);
    assert_ne!(hash(left), hash(right));
}

#[test]
fn test_string_array_from_bytes() {
    type S1 = StringArray<1>;

    assert_eq!(b"\0", S1::from_bytes(b"").as_bytes());
    assert_eq!(b"\0", S1::from_bytes(b"\0").as_bytes());
    assert_eq!(b"\0", S1::from_bytes(b"\0bar").as_bytes());

    assert_eq!(b"\0", S1::from_bytes(b"322").as_bytes());
    assert_eq!(b"\0", S1::from_bytes(b"322\0").as_bytes());
    assert_eq!(b"\0", S1::from_bytes(b"322\0bar").as_bytes());

    type S4 = StringArray<4>;

    assert_eq!(b"\0\0\0\0", S4::from_bytes(b"").as_bytes());
    assert_eq!(b"\0\0\0\0", S4::from_bytes(b"\0").as_bytes());
    assert_eq!(b"\0\0\0\0", S4::from_bytes(b"\0bar").as_bytes());

    assert_eq!(b"322\0", S4::from_bytes(b"322").as_bytes());
    assert_eq!(b"322\0", S4::from_bytes(b"322\0").as_bytes());
    assert_eq!(b"322\0", S4::from_bytes(b"322\0bar").as_bytes());

    assert_eq!(b"128\0", S4::from_bytes(b"1288").as_bytes());
    assert_eq!(b"128\0", S4::from_bytes(b"1288\0").as_bytes());
    assert_eq!(b"128\0", S4::from_bytes(b"1288\0bar").as_bytes());
}

#[test]
fn test_string_array_cmp() {
    type S32 = StringArray<32>;

    assert_cmp_eq(S32::from_bytes(b""), S32::from_bytes(b""));
    assert_cmp_eq(S32::from_bytes(b"\0"), S32::from_bytes(b""));
    assert_cmp_eq(S32::from_bytes(b""), S32::from_bytes(b"\0"));
    assert_cmp_eq(S32::from_bytes(b"\0"), S32::from_bytes(b"\0"));
    assert_cmp_eq(S32::from_bytes(b"\0foo"), S32::from_bytes(b"\0bar"));

    assert_cmp_eq(S32::from_bytes(b"322"), S32::from_bytes(b"322"));
    assert_cmp_eq(S32::from_bytes(b"322\0"), S32::from_bytes(b"322"));
    assert_cmp_eq(S32::from_bytes(b"322"), S32::from_bytes(b"322\0"));
    assert_cmp_eq(S32::from_bytes(b"322\0"), S32::from_bytes(b"322\0"));
    assert_cmp_eq(S32::from_bytes(b"322\0foo"), S32::from_bytes(b"322\0bar"));

    assert_cmp_ne(S32::from_bytes(b"322"), S32::from_bytes(b"422"));
    assert_cmp_ne(S32::from_bytes(b"322"), S32::from_bytes(b"332"));
    assert_cmp_ne(S32::from_bytes(b"322"), S32::from_bytes(b"323"));

    assert_cmp_ne(S32::from_bytes(b"322"), S32::from_bytes(b"32"));
    assert_cmp_ne(S32::from_bytes(b"322"), S32::from_bytes(b"3222"));
}

#[test]
fn string_array_new_ignores_bytes_after_nul() {
    let a = StringArray::<3>::new([b'a', 0, 0]);
    let b = StringArray::<3>::new([b'a', 0, b'z']);
    assert_eq!(a, b);
    assert_eq!(hash(a.clone()), hash(b.clone()));
    assert_eq!(a.as_bytes(), b"a\0\0");
    assert_eq!(b.as_bytes(), b"a\0\0");
    assert_eq!(a.as_cstr(), b"a\0".to_vec());
    assert_eq!(a.text_len(), 1);
}
