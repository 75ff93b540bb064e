//! The command set of the RM690B0.

use vstd::prelude::*;

verus! {

pub const NOP: u8 = 0x00;
pub const SWRESET: u8 = 0x01;
/// Read Display Identification Information
pub const RDDID: u8 = 0x04;
/// Read Number of Errors on DSI
pub const RDNUMED: u8 = 0x05;
/// Read Display Power Mode
pub const RDDPM: u8 = 0x0A;
/// Read Display MADCTR
pub const RDDMADCTR: u8 = 0x0B;
/// Read Display Pixel Format
pub const RDDCOLMOD: u8 = 0x0C;
/// Read Display Image Mode
pub const RDDIM: u8 = 0x0D;
/// Read Display Signal Mode
pub const RDDSM: u8 = 0x0E;
/// Read Display Self-Diagnostic Result
pub const RDDSDR: u8 = 0x0F;
pub const SLPIN: u8 = 0x10;
pub const SLPOUT: u8 = 0x11;
/// Partial Display Mode On
pub const PTLON: u8 = 0x12;
/// Normal Display Mode On
pub const NORON: u8 = 0x13;
/// Display Inversion Off
pub const INVOFF: u8 = 0x20;
/// Display Inversion On
pub const INVON: u8 = 0x21;
/// All Pixel Off
pub const ALLPOFF: u8 = 0x22;
/// All Pixel On
pub const ALLPON: u8 = 0x23;
pub const DISPOFF: u8 = 0x28;
pub const DISPON: u8 = 0x29;
/// Column Address Set
pub const CASET: u8 = 0x2A;
/// Row Address Set
pub const RASET: u8 = 0x2B;
/// Memory Write
pub const RAMWR: u8 = 0x2C;
/// Partial Area
pub const PTLAR: u8 = 0x30;
/// Tearing Effect Off
pub const TEOFF: u8 = 0x34;
/// Tearing Effect On
pub const TEON: u8 = 0x35;
/// Memory Data Access Control
pub const MADCTR: u8 = 0x36;
/// Idle Mode Off
pub const IDMOFF: u8 = 0x38;
/// Idle Mode On
pub const IDMON: u8 = 0x39;
/// Interface Pixel Format
pub const COLMOD: u8 = 0x3A;
/// Memory Continuous Write
pub const RAMWRC: u8 = 0x3C;
/// Set Tear Scan Line
pub const STESL: u8 = 0x44;
/// Get Scan Line
pub const GSL: u8 = 0x45;
/// Deep Standby Mode On
pub const DSTBON: u8 = 0x4F;
/// Write Display Brightness
pub const WRDISBV: u8 = 0x51;
/// Read Display Brightness
pub const RDDISBV: u8 = 0x52;
/// Write CTRL Display
pub const WRCTRLD: u8 = 0x53;
/// Read CTRL Display
pub const RDCTRLD: u8 = 0x54;
/// RAD_ACL Control
pub const WRRADACL: u8 = 0x55;
/// Color Temperature Selection (shares its code with WRRADACL)
pub const COLORTEMP: u8 = 0x55;
/// Write HBM Display Brightness
pub const WRHBM: u8 = 0x63;
/// Read HBM Display Brightness
pub const RDHBM: u8 = 0x64;
/// Set HBM Mode
pub const HBM_MODE: u8 = 0x66;
/// Frame Rate Level Control
pub const FR_LEVEL: u8 = 0x67;
/// Interface Pixel Format Set
pub const COLSET: u8 = 0x70;
/// Interface Pixel Format Option
pub const COLOPT: u8 = 0x80;
/// Read DDB Start
pub const RDDDBS: u8 = 0xA1;
/// Read DDB Continuous
pub const RDDDBC: u8 = 0xA8;
/// Read First Checksum
pub const RDFCS: u8 = 0xAA;
/// Read Continue Checksum
pub const RDCCS: u8 = 0xAF;

} // verus!
