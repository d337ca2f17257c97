use std::fmt;

use vulkanalia::bits::{get_field, with_field};

/// A test sequence of bitfields.
#[derive(Copy, Clone, Default, PartialEq, Eq, PartialOrd, Ord, Hash)]
struct Bitfields(pub u32);

impl Bitfields {
    fn foo(self) -> u32 {
        get_field(self.0, 0, 4)
    }

    fn with_foo(self, value: u32) -> Self {
        Self(with_field(self.0, 0, 4, value))
    }

    fn bar(self) -> u32 {
        get_field(self.0, 15, 16)
    }

    fn with_bar(self, value: u32) -> Self {
        Self(with_field(self.0, 15, 16, value))
    }

    fn baz(self) -> u32 {
        get_field(self.0, 16, 17)
    }

    fn with_baz(self, value: u32) -> Self {
        Self(with_field(self.0, 16, 17, value))
    }

    fn qux(self) -> u32 {
        get_field(self.0, 28, 32)
    }

    fn with_qux(self, value: u32) -> Self {
        Self(with_field(self.0, 28, 32, value))
    }
}

impl fmt::Debug for Bitfields {
    fn fmt(&self, f: &mut fmt::Formatter) -> fmt::Result {
        f.debug_struct("Bitfields")
            .field("foo", &self.foo())
            .field("bar", &self.bar())
            .field("baz", &self.baz())
            .field("qux", &self.qux())
            .finish()
    }
}

#[test]
fn test_bitfields() {
    let bf = Bitfields(0b00111100_01010101_01010101_00111100);

    assert_eq!(bf.foo(), 0b1100);
    assert_eq!(bf.bar(), 0);
    assert_eq!(bf.baz(), 1);
    assert_eq!(bf.qux(), 0b0011);

    assert_eq!(bf.with_foo(0b0000).0, 0b00111100_01010101_01010101_00110000);
    assert_eq!(bf.with_foo(0b1111).0, 0b00111100_01010101_01010101_00111111);
    assert_eq!(
        bf.with_foo(u32::MAX).0,
        0b00111100_01010101_01010101_00111111
    );

    assert_eq!(bf.with_bar(0).0, 0b00111100_01010101_01010101_00111100);
    assert_eq!(bf.with_bar(1).0, 0b00111100_01010101_11010101_00111100);
    assert_eq!(
        bf.with_bar(u32::MAX).0,
        0b00111100_01010101_11010101_00111100
    );

    assert_eq!(bf.with_baz(0).0, 0b00111100_01010100_01010101_00111100);
    assert_eq!(bf.with_baz(1).0, 0b00111100_01010101_01010101_00111100);
    assert_eq!(
        bf.with_baz(u32::MAX).0,
        0b00111100_01010101_01010101_00111100
    );

    assert_eq!(bf.with_qux(0b0000).0, 0b00001100_01010101_01010101_00111100);
    assert_eq!(bf.with_qux(0b1111).0, 0b11111100_01010101_01010101_00111100);
    assert_eq!(
        bf.with_qux(u32::MAX).0,
        0b11111100_01010101_01010101_00111100
    );

    assert_eq!(
        format!("{bf:?}"),
        "Bitfields { foo: 12, bar: 0, baz: 1, qux: 3 }"
    );
}
