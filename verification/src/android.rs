//! The values that the Android Bluetooth API exchanges with the library
//!
//! The calls into the Java virtual machine stay outside of the library; these are the values
//! that they carry.
use vstd::prelude::*;

pub mod gatt;
pub mod le;
pub mod wrapper;

verus! {

/// A physical layer of Bluetooth LE
#[derive(Clone, Copy, Debug, PartialEq, Eq, Structural)]
pub enum Phy {
    /// LE 1M
    OneMbs,
    /// LE 2M
    TwoMbs,
    /// LE Coded
    Coded,
}

/// The value of a physical layer in the Android API
pub open spec fn spec_phy_val(phy: Phy) -> i32 {
    match phy {
        Phy::OneMbs => 1,
        Phy::TwoMbs => 2,
        Phy::Coded => 3,
    }
}

impl Phy {
    /// The physical layer of a value of the Android API, or the value where it names none
    pub fn from_raw(raw: i32) -> (r: Result<Phy, i32>)
        ensures
            1 <= raw <= 3 ==> (r matches Ok(p) && spec_phy_val(p) == raw),
            !(1 <= raw <= 3) ==> r == Err::<Phy, i32>(raw),
    {
        match raw {
            // BluetoothDevice.PHY_LE_1M
            1 => Ok(Phy::OneMbs),
            // BluetoothDevice.PHY_LE_2M
            2 => Ok(Phy::TwoMbs),
            // BluetoothDevice.PHY_LE_CODED
            3 => Ok(Phy::Coded),
            _ => Err(raw),
        }
    }

    /// The value of the physical layer in the Android API
    pub fn val(&self) -> (r: i32)
        ensures
            r == spec_phy_val(*self),
    {
        match *self {
            Phy::OneMbs => 1,
            Phy::TwoMbs => 2,
            Phy::Coded => 3,
        }
    }
}

/// The coding of the LE Coded physical layer
#[derive(Clone, Copy, Debug, PartialEq, Eq, Structural)]
pub enum PhyCodedType {
    Coded2M,
    Coded8M,
}

impl PhyCodedType {
    /// The value of an optional coding in the Android API: 0 for none
    pub fn val_from_opt(val: Option<PhyCodedType>) -> (r: i32)
        ensures
            r == (match val {
                None => 0i32,
                Some(PhyCodedType::Coded2M) => 1,
                Some(PhyCodedType::Coded8M) => 2,
            }),
    {
        match val {
            None => 0,
            Some(coded_type) => match coded_type {
                PhyCodedType::Coded2M => 1,
                PhyCodedType::Coded8M => 2,
            },
        }
    }
}

} // verus!
