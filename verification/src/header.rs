//! The header codec: the bijection between the 1024-byte fixed-layout
//! container header and a structured record of its fields.
//!
//! Text fields are fixed-width slots, zero-padded on write and trimmed of
//! trailing zero bytes on read; they must hold well-formed UTF-8.
//! Integer fields are little-endian 32-bit values. Floating-point fields
//! are carried as opaque little-endian 64-bit IEEE-754 bit patterns: the
//! codec never interprets them, so the record stores the raw pattern.
//! The fields occupy the first 488 bytes; the remaining 536 bytes of the
//! header are zero.
use crate::bytes::{
    is_utf8, le_bytes_of, le_val, lemma_is_utf8_append, lemma_is_utf8_ascii,
    lemma_byte_base_values, lemma_le_bytes_of_len, lemma_le_bytes_of_val, lemma_le_val_bound,
    lemma_le_val_shift, lemma_le_val_of_bytes, lemma_pad_trim, lemma_trim_pad, pad_bytes,
    trim_zeros,
};
use crate::cursor::Buf;
use crate::errors::DecodeError;
use vstd::prelude::*;

verus! {

/// The structured header record. Field names and order follow the wire
/// layout; `d*` fields hold the bit patterns of IEEE-754 doubles.
#[derive(Clone, Debug)]
pub struct hnd_header_t {
    pub sFileType: Vec<u8>,
    pub FileLength: u32,
    pub chasChecksumSpec: Vec<u8>,
    pub nCheckSum: u32,
    pub sCreationDate: Vec<u8>,
    pub sCreationTime: Vec<u8>,
    pub sPatientID: Vec<u8>,
    pub nPatientSer: u32,
    pub sSeriesID: Vec<u8>,
    pub nSeriesSer: u32,
    pub sSliceID: Vec<u8>,
    pub nSliceSer: u32,
    pub SizeX: u32,
    pub SizeY: u32,
    pub dSliceZPos: u64,
    pub sModality: Vec<u8>,
    pub nWindow: u32,
    pub nLevel: u32,
    pub nPixelOffset: u32,
    pub sImageType: Vec<u8>,
    pub dGantryRtn: u64,
    pub dSAD: u64,
    pub dSFD: u64,
    pub dCollX1: u64,
    pub dCollX2: u64,
    pub dCollY1: u64,
    pub dCollY2: u64,
    pub dCollRtn: u64,
    pub dFieldX: u64,
    pub dFieldY: u64,
    pub dBladeX1: u64,
    pub dBladeX2: u64,
    pub dBladeY1: u64,
    pub dBladeY2: u64,
    pub dIDUPosLng: u64,
    pub dIDUPosLat: u64,
    pub dIDUPosVrt: u64,
    pub dIDUPosRtn: u64,
    pub dPatientSupportAngle: u64,
    pub dTableTopEccentricAngle: u64,
    pub dCouchVrt: u64,
    pub dCouchLng: u64,
    pub dCouchLat: u64,
    pub dIDUResolutionX: u64,
    pub dIDUResolutionY: u64,
    pub dImageResolutionX: u64,
    pub dImageResolutionY: u64,
    pub dEnergy: u64,
    pub dDoseRate: u64,
    pub dXRayKV: u64,
    pub dXRayMA: u64,
    pub dMetersetExposure: u64,
    pub dAcqAdjustment: u64,
    pub dCTProjectionAngle: u64,
    pub dCTNormChamber: u64,
    pub dGatingTimeTag: u64,
    pub dGating4DInfoX: u64,
    pub dGating4DInfoY: u64,
    pub dGating4DInfoZ: u64,
    pub dGating4DInfoTime: u64,
}

/// The mathematical view of a header record.
#[verifier::ext_equal]
pub ghost struct HeaderV {
    pub sFileType: Seq<u8>,
    pub FileLength: u32,
    pub chasChecksumSpec: Seq<u8>,
    pub nCheckSum: u32,
    pub sCreationDate: Seq<u8>,
    pub sCreationTime: Seq<u8>,
    pub sPatientID: Seq<u8>,
    pub nPatientSer: u32,
    pub sSeriesID: Seq<u8>,
    pub nSeriesSer: u32,
    pub sSliceID: Seq<u8>,
    pub nSliceSer: u32,
    pub SizeX: u32,
    pub SizeY: u32,
    pub dSliceZPos: u64,
    pub sModality: Seq<u8>,
    pub nWindow: u32,
    pub nLevel: u32,
    pub nPixelOffset: u32,
    pub sImageType: Seq<u8>,
    pub dGantryRtn: u64,
    pub dSAD: u64,
    pub dSFD: u64,
    pub dCollX1: u64,
    pub dCollX2: u64,
    pub dCollY1: u64,
    pub dCollY2: u64,
    pub dCollRtn: u64,
    pub dFieldX: u64,
    pub dFieldY: u64,
    pub dBladeX1: u64,
    pub dBladeX2: u64,
    pub dBladeY1: u64,
    pub dBladeY2: u64,
    pub dIDUPosLng: u64,
    pub dIDUPosLat: u64,
    pub dIDUPosVrt: u64,
    pub dIDUPosRtn: u64,
    pub dPatientSupportAngle: u64,
    pub dTableTopEccentricAngle: u64,
    pub dCouchVrt: u64,
    pub dCouchLng: u64,
    pub dCouchLat: u64,
    pub dIDUResolutionX: u64,
    pub dIDUResolutionY: u64,
    pub dImageResolutionX: u64,
    pub dImageResolutionY: u64,
    pub dEnergy: u64,
    pub dDoseRate: u64,
    pub dXRayKV: u64,
    pub dXRayMA: u64,
    pub dMetersetExposure: u64,
    pub dAcqAdjustment: u64,
    pub dCTProjectionAngle: u64,
    pub dCTNormChamber: u64,
    pub dGatingTimeTag: u64,
    pub dGating4DInfoX: u64,
    pub dGating4DInfoY: u64,
    pub dGating4DInfoZ: u64,
    pub dGating4DInfoTime: u64,
}

impl View for hnd_header_t {
    type V = HeaderV;

    open spec fn view(&self) -> HeaderV {
        HeaderV {
            sFileType: self.sFileType@,
            FileLength: self.FileLength,
            chasChecksumSpec: self.chasChecksumSpec@,
            nCheckSum: self.nCheckSum,
            sCreationDate: self.sCreationDate@,
            sCreationTime: self.sCreationTime@,
            sPatientID: self.sPatientID@,
            nPatientSer: self.nPatientSer,
            sSeriesID: self.sSeriesID@,
            nSeriesSer: self.nSeriesSer,
            sSliceID: self.sSliceID@,
            nSliceSer: self.nSliceSer,
            SizeX: self.SizeX,
            SizeY: self.SizeY,
            dSliceZPos: self.dSliceZPos,
            sModality: self.sModality@,
            nWindow: self.nWindow,
            nLevel: self.nLevel,
            nPixelOffset: self.nPixelOffset,
            sImageType: self.sImageType@,
            dGantryRtn: self.dGantryRtn,
            dSAD: self.dSAD,
            dSFD: self.dSFD,
            dCollX1: self.dCollX1,
            dCollX2: self.dCollX2,
            dCollY1: self.dCollY1,
            dCollY2: self.dCollY2,
            dCollRtn: self.dCollRtn,
            dFieldX: self.dFieldX,
            dFieldY: self.dFieldY,
            dBladeX1: self.dBladeX1,
            dBladeX2: self.dBladeX2,
            dBladeY1: self.dBladeY1,
            dBladeY2: self.dBladeY2,
            dIDUPosLng: self.dIDUPosLng,
            dIDUPosLat: self.dIDUPosLat,
            dIDUPosVrt: self.dIDUPosVrt,
            dIDUPosRtn: self.dIDUPosRtn,
            dPatientSupportAngle: self.dPatientSupportAngle,
            dTableTopEccentricAngle: self.dTableTopEccentricAngle,
            dCouchVrt: self.dCouchVrt,
            dCouchLng: self.dCouchLng,
            dCouchLat: self.dCouchLat,
            dIDUResolutionX: self.dIDUResolutionX,
            dIDUResolutionY: self.dIDUResolutionY,
            dImageResolutionX: self.dImageResolutionX,
            dImageResolutionY: self.dImageResolutionY,
            dEnergy: self.dEnergy,
            dDoseRate: self.dDoseRate,
            dXRayKV: self.dXRayKV,
            dXRayMA: self.dXRayMA,
            dMetersetExposure: self.dMetersetExposure,
            dAcqAdjustment: self.dAcqAdjustment,
            dCTProjectionAngle: self.dCTProjectionAngle,
            dCTNormChamber: self.dCTNormChamber,
            dGatingTimeTag: self.dGatingTimeTag,
            dGating4DInfoX: self.dGating4DInfoX,
            dGating4DInfoY: self.dGating4DInfoY,
            dGating4DInfoZ: self.dGating4DInfoZ,
            dGating4DInfoTime: self.dGating4DInfoTime,
        }
    }
}

/// The 1024-byte wire form of a header record: every field in layout
/// order, then the zero tail.
pub open spec fn spec_header_bytes(v: HeaderV) -> Seq<u8> {
    pad_bytes(v.sFileType, 32) + le_bytes_of(v.FileLength as int, 4) + pad_bytes(v.chasChecksumSpec, 4) + le_bytes_of(v.nCheckSum as int, 4) + pad_bytes(v.sCreationDate, 8) + pad_bytes(v.sCreationTime, 8) + pad_bytes(v.sPatientID, 16) + le_bytes_of(v.nPatientSer as int, 4) + pad_bytes(v.sSeriesID, 16) + le_bytes_of(v.nSeriesSer as int, 4) + pad_bytes(v.sSliceID, 16) + le_bytes_of(v.nSliceSer as int, 4) + le_bytes_of(v.SizeX as int, 4) + le_bytes_of(v.SizeY as int, 4) + le_bytes_of(v.dSliceZPos as int, 8) + pad_bytes(v.sModality, 16) + le_bytes_of(v.nWindow as int, 4) + le_bytes_of(v.nLevel as int, 4) + le_bytes_of(v.nPixelOffset as int, 4) + pad_bytes(v.sImageType, 4) + le_bytes_of(v.dGantryRtn as int, 8) + le_bytes_of(v.dSAD as int, 8) + le_bytes_of(v.dSFD as int, 8) + le_bytes_of(v.dCollX1 as int, 8) + le_bytes_of(v.dCollX2 as int, 8) + le_bytes_of(v.dCollY1 as int, 8) + le_bytes_of(v.dCollY2 as int, 8) + le_bytes_of(v.dCollRtn as int, 8) + le_bytes_of(v.dFieldX as int, 8) + le_bytes_of(v.dFieldY as int, 8) + le_bytes_of(v.dBladeX1 as int, 8) + le_bytes_of(v.dBladeX2 as int, 8) + le_bytes_of(v.dBladeY1 as int, 8) + le_bytes_of(v.dBladeY2 as int, 8) + le_bytes_of(v.dIDUPosLng as int, 8) + le_bytes_of(v.dIDUPosLat as int, 8) + le_bytes_of(v.dIDUPosVrt as int, 8) + le_bytes_of(v.dIDUPosRtn as int, 8) + le_bytes_of(v.dPatientSupportAngle as int, 8) + le_bytes_of(v.dTableTopEccentricAngle as int, 8) + le_bytes_of(v.dCouchVrt as int, 8) + le_bytes_of(v.dCouchLng as int, 8) + le_bytes_of(v.dCouchLat as int, 8) + le_bytes_of(v.dIDUResolutionX as int, 8) + le_bytes_of(v.dIDUResolutionY as int, 8) + le_bytes_of(v.dImageResolutionX as int, 8) + le_bytes_of(v.dImageResolutionY as int, 8) + le_bytes_of(v.dEnergy as int, 8) + le_bytes_of(v.dDoseRate as int, 8) + le_bytes_of(v.dXRayKV as int, 8) + le_bytes_of(v.dXRayMA as int, 8) + le_bytes_of(v.dMetersetExposure as int, 8) + le_bytes_of(v.dAcqAdjustment as int, 8) + le_bytes_of(v.dCTProjectionAngle as int, 8) + le_bytes_of(v.dCTNormChamber as int, 8) + le_bytes_of(v.dGatingTimeTag as int, 8) + le_bytes_of(v.dGating4DInfoX as int, 8) + le_bytes_of(v.dGating4DInfoY as int, 8) + le_bytes_of(v.dGating4DInfoZ as int, 8) + le_bytes_of(v.dGating4DInfoTime as int, 8) + pad_bytes(Seq::<u8>::empty(), 536)
}

/// The header record parsed from a 1024-byte buffer.
pub open spec fn spec_parse_header(b: Seq<u8>) -> HeaderV {
    HeaderV {
        sFileType: trim_zeros(b.subrange(0, 32)),
        FileLength: le_val(b, 32, 4) as u32,
        chasChecksumSpec: trim_zeros(b.subrange(36, 40)),
        nCheckSum: le_val(b, 40, 4) as u32,
        sCreationDate: trim_zeros(b.subrange(44, 52)),
        sCreationTime: trim_zeros(b.subrange(52, 60)),
        sPatientID: trim_zeros(b.subrange(60, 76)),
        nPatientSer: le_val(b, 76, 4) as u32,
        sSeriesID: trim_zeros(b.subrange(80, 96)),
        nSeriesSer: le_val(b, 96, 4) as u32,
        sSliceID: trim_zeros(b.subrange(100, 116)),
        nSliceSer: le_val(b, 116, 4) as u32,
        SizeX: le_val(b, 120, 4) as u32,
        SizeY: le_val(b, 124, 4) as u32,
        dSliceZPos: le_val(b, 128, 8) as u64,
        sModality: trim_zeros(b.subrange(136, 152)),
        nWindow: le_val(b, 152, 4) as u32,
        nLevel: le_val(b, 156, 4) as u32,
        nPixelOffset: le_val(b, 160, 4) as u32,
        sImageType: trim_zeros(b.subrange(164, 168)),
        dGantryRtn: le_val(b, 168, 8) as u64,
        dSAD: le_val(b, 176, 8) as u64,
        dSFD: le_val(b, 184, 8) as u64,
        dCollX1: le_val(b, 192, 8) as u64,
        dCollX2: le_val(b, 200, 8) as u64,
        dCollY1: le_val(b, 208, 8) as u64,
        dCollY2: le_val(b, 216, 8) as u64,
        dCollRtn: le_val(b, 224, 8) as u64,
        dFieldX: le_val(b, 232, 8) as u64,
        dFieldY: le_val(b, 240, 8) as u64,
        dBladeX1: le_val(b, 248, 8) as u64,
        dBladeX2: le_val(b, 256, 8) as u64,
        dBladeY1: le_val(b, 264, 8) as u64,
        dBladeY2: le_val(b, 272, 8) as u64,
        dIDUPosLng: le_val(b, 280, 8) as u64,
        dIDUPosLat: le_val(b, 288, 8) as u64,
        dIDUPosVrt: le_val(b, 296, 8) as u64,
        dIDUPosRtn: le_val(b, 304, 8) as u64,
        dPatientSupportAngle: le_val(b, 312, 8) as u64,
        dTableTopEccentricAngle: le_val(b, 320, 8) as u64,
        dCouchVrt: le_val(b, 328, 8) as u64,
        dCouchLng: le_val(b, 336, 8) as u64,
        dCouchLat: le_val(b, 344, 8) as u64,
        dIDUResolutionX: le_val(b, 352, 8) as u64,
        dIDUResolutionY: le_val(b, 360, 8) as u64,
        dImageResolutionX: le_val(b, 368, 8) as u64,
        dImageResolutionY: le_val(b, 376, 8) as u64,
        dEnergy: le_val(b, 384, 8) as u64,
        dDoseRate: le_val(b, 392, 8) as u64,
        dXRayKV: le_val(b, 400, 8) as u64,
        dXRayMA: le_val(b, 408, 8) as u64,
        dMetersetExposure: le_val(b, 416, 8) as u64,
        dAcqAdjustment: le_val(b, 424, 8) as u64,
        dCTProjectionAngle: le_val(b, 432, 8) as u64,
        dCTNormChamber: le_val(b, 440, 8) as u64,
        dGatingTimeTag: le_val(b, 448, 8) as u64,
        dGating4DInfoX: le_val(b, 456, 8) as u64,
        dGating4DInfoY: le_val(b, 464, 8) as u64,
        dGating4DInfoZ: le_val(b, 472, 8) as u64,
        dGating4DInfoTime: le_val(b, 480, 8) as u64,
    }
}

/// Every text slot of the buffer holds well-formed UTF-8.
pub open spec fn texts_utf8(b: Seq<u8>) -> bool {
    &&& is_utf8(b.subrange(0, 32))
    &&& is_utf8(b.subrange(36, 40))
    &&& is_utf8(b.subrange(44, 52))
    &&& is_utf8(b.subrange(52, 60))
    &&& is_utf8(b.subrange(60, 76))
    &&& is_utf8(b.subrange(80, 96))
    &&& is_utf8(b.subrange(100, 116))
    &&& is_utf8(b.subrange(136, 152))
    &&& is_utf8(b.subrange(164, 168))
}

/// A well-formed record: each text field fits its slot, carries no
/// trailing zero byte (the trimmed form), and is well-formed UTF-8.
pub open spec fn header_wf(v: HeaderV) -> bool {
    &&& v.sFileType.len() <= 32 && trim_zeros(v.sFileType) == v.sFileType && is_utf8(v.sFileType)
    &&& v.chasChecksumSpec.len() <= 4 && trim_zeros(v.chasChecksumSpec) == v.chasChecksumSpec && is_utf8(v.chasChecksumSpec)
    &&& v.sCreationDate.len() <= 8 && trim_zeros(v.sCreationDate) == v.sCreationDate && is_utf8(v.sCreationDate)
    &&& v.sCreationTime.len() <= 8 && trim_zeros(v.sCreationTime) == v.sCreationTime && is_utf8(v.sCreationTime)
    &&& v.sPatientID.len() <= 16 && trim_zeros(v.sPatientID) == v.sPatientID && is_utf8(v.sPatientID)
    &&& v.sSeriesID.len() <= 16 && trim_zeros(v.sSeriesID) == v.sSeriesID && is_utf8(v.sSeriesID)
    &&& v.sSliceID.len() <= 16 && trim_zeros(v.sSliceID) == v.sSliceID && is_utf8(v.sSliceID)
    &&& v.sModality.len() <= 16 && trim_zeros(v.sModality) == v.sModality && is_utf8(v.sModality)
    &&& v.sImageType.len() <= 4 && trim_zeros(v.sImageType) == v.sImageType && is_utf8(v.sImageType)
}

/// The record with every field zero or empty.
pub open spec fn spec_default_header() -> HeaderV {
    HeaderV {
        sFileType: Seq::empty(),
        FileLength: 0,
        chasChecksumSpec: Seq::empty(),
        nCheckSum: 0,
        sCreationDate: Seq::empty(),
        sCreationTime: Seq::empty(),
        sPatientID: Seq::empty(),
        nPatientSer: 0,
        sSeriesID: Seq::empty(),
        nSeriesSer: 0,
        sSliceID: Seq::empty(),
        nSliceSer: 0,
        SizeX: 0,
        SizeY: 0,
        dSliceZPos: 0,
        sModality: Seq::empty(),
        nWindow: 0,
        nLevel: 0,
        nPixelOffset: 0,
        sImageType: Seq::empty(),
        dGantryRtn: 0,
        dSAD: 0,
        dSFD: 0,
        dCollX1: 0,
        dCollX2: 0,
        dCollY1: 0,
        dCollY2: 0,
        dCollRtn: 0,
        dFieldX: 0,
        dFieldY: 0,
        dBladeX1: 0,
        dBladeX2: 0,
        dBladeY1: 0,
        dBladeY2: 0,
        dIDUPosLng: 0,
        dIDUPosLat: 0,
        dIDUPosVrt: 0,
        dIDUPosRtn: 0,
        dPatientSupportAngle: 0,
        dTableTopEccentricAngle: 0,
        dCouchVrt: 0,
        dCouchLng: 0,
        dCouchLat: 0,
        dIDUResolutionX: 0,
        dIDUResolutionY: 0,
        dImageResolutionX: 0,
        dImageResolutionY: 0,
        dEnergy: 0,
        dDoseRate: 0,
        dXRayKV: 0,
        dXRayMA: 0,
        dMetersetExposure: 0,
        dAcqAdjustment: 0,
        dCTProjectionAngle: 0,
        dCTNormChamber: 0,
        dGatingTimeTag: 0,
        dGating4DInfoX: 0,
        dGating4DInfoY: 0,
        dGating4DInfoZ: 0,
        dGating4DInfoTime: 0,
    }
}

impl hnd_header_t {
    /// A header record with every field zero or empty.
    pub fn new() -> (r: hnd_header_t)
        ensures
            r@ == spec_default_header(),
            header_wf(r@),
    {
        let r = hnd_header_t {
            sFileType: Vec::new(),
            FileLength: 0,
            chasChecksumSpec: Vec::new(),
            nCheckSum: 0,
            sCreationDate: Vec::new(),
            sCreationTime: Vec::new(),
            sPatientID: Vec::new(),
            nPatientSer: 0,
            sSeriesID: Vec::new(),
            nSeriesSer: 0,
            sSliceID: Vec::new(),
            nSliceSer: 0,
            SizeX: 0,
            SizeY: 0,
            dSliceZPos: 0,
            sModality: Vec::new(),
            nWindow: 0,
            nLevel: 0,
            nPixelOffset: 0,
            sImageType: Vec::new(),
            dGantryRtn: 0,
            dSAD: 0,
            dSFD: 0,
            dCollX1: 0,
            dCollX2: 0,
            dCollY1: 0,
            dCollY2: 0,
            dCollRtn: 0,
            dFieldX: 0,
            dFieldY: 0,
            dBladeX1: 0,
            dBladeX2: 0,
            dBladeY1: 0,
            dBladeY2: 0,
            dIDUPosLng: 0,
            dIDUPosLat: 0,
            dIDUPosVrt: 0,
            dIDUPosRtn: 0,
            dPatientSupportAngle: 0,
            dTableTopEccentricAngle: 0,
            dCouchVrt: 0,
            dCouchLng: 0,
            dCouchLat: 0,
            dIDUResolutionX: 0,
            dIDUResolutionY: 0,
            dImageResolutionX: 0,
            dImageResolutionY: 0,
            dEnergy: 0,
            dDoseRate: 0,
            dXRayKV: 0,
            dXRayMA: 0,
            dMetersetExposure: 0,
            dAcqAdjustment: 0,
            dCTProjectionAngle: 0,
            dCTNormChamber: 0,
            dGatingTimeTag: 0,
            dGating4DInfoX: 0,
            dGating4DInfoY: 0,
            dGating4DInfoZ: 0,
            dGating4DInfoTime: 0,
        };
        proof {
            assert(r@ =~= spec_default_header());
        }
        r
    }

    /// Serialises the record to its 1024-byte wire form. Text fields
    /// longer than their slot are silently truncated.
    pub fn to_raw(&self) -> (r: Vec<u8>)
        ensures
            r@ == spec_header_bytes(self@),
            r@.len() == 1024,
    {
        let mut b = Buf::new();
        b.write_string(&self.sFileType, 32);
        b.write_u32(self.FileLength);
        b.write_string(&self.chasChecksumSpec, 4);
        b.write_u32(self.nCheckSum);
        b.write_string(&self.sCreationDate, 8);
        b.write_string(&self.sCreationTime, 8);
        b.write_string(&self.sPatientID, 16);
        b.write_u32(self.nPatientSer);
        b.write_string(&self.sSeriesID, 16);
        b.write_u32(self.nSeriesSer);
        b.write_string(&self.sSliceID, 16);
        b.write_u32(self.nSliceSer);
        b.write_u32(self.SizeX);
        b.write_u32(self.SizeY);
        b.write_f64_bits(self.dSliceZPos);
        b.write_string(&self.sModality, 16);
        b.write_u32(self.nWindow);
        b.write_u32(self.nLevel);
        b.write_u32(self.nPixelOffset);
        b.write_string(&self.sImageType, 4);
        b.write_f64_bits(self.dGantryRtn);
        b.write_f64_bits(self.dSAD);
        b.write_f64_bits(self.dSFD);
        b.write_f64_bits(self.dCollX1);
        b.write_f64_bits(self.dCollX2);
        b.write_f64_bits(self.dCollY1);
        b.write_f64_bits(self.dCollY2);
        b.write_f64_bits(self.dCollRtn);
        b.write_f64_bits(self.dFieldX);
        b.write_f64_bits(self.dFieldY);
        b.write_f64_bits(self.dBladeX1);
        b.write_f64_bits(self.dBladeX2);
        b.write_f64_bits(self.dBladeY1);
        b.write_f64_bits(self.dBladeY2);
        b.write_f64_bits(self.dIDUPosLng);
        b.write_f64_bits(self.dIDUPosLat);
        b.write_f64_bits(self.dIDUPosVrt);
        b.write_f64_bits(self.dIDUPosRtn);
        b.write_f64_bits(self.dPatientSupportAngle);
        b.write_f64_bits(self.dTableTopEccentricAngle);
        b.write_f64_bits(self.dCouchVrt);
        b.write_f64_bits(self.dCouchLng);
        b.write_f64_bits(self.dCouchLat);
        b.write_f64_bits(self.dIDUResolutionX);
        b.write_f64_bits(self.dIDUResolutionY);
        b.write_f64_bits(self.dImageResolutionX);
        b.write_f64_bits(self.dImageResolutionY);
        b.write_f64_bits(self.dEnergy);
        b.write_f64_bits(self.dDoseRate);
        b.write_f64_bits(self.dXRayKV);
        b.write_f64_bits(self.dXRayMA);
        b.write_f64_bits(self.dMetersetExposure);
        b.write_f64_bits(self.dAcqAdjustment);
        b.write_f64_bits(self.dCTProjectionAngle);
        b.write_f64_bits(self.dCTNormChamber);
        b.write_f64_bits(self.dGatingTimeTag);
        b.write_f64_bits(self.dGating4DInfoX);
        b.write_f64_bits(self.dGating4DInfoY);
        b.write_f64_bits(self.dGating4DInfoZ);
        b.write_f64_bits(self.dGating4DInfoTime);
        let tail: Vec<u8> = Vec::new();
        b.write_string(&tail, 536);
        proof {
            assert(Seq::<u8>::empty() + pad_bytes(self@.sFileType, 32) =~= pad_bytes(
                self@.sFileType,
                32,
            ));
            assert(b.data@ == spec_header_bytes(self@));
            lemma_spec_header_bytes_len(self@);
        }
        b.data
    }

    /// Parses a 1024-byte buffer into a header record. Fails on any
    /// other buffer length, and on a text slot that is not well-formed
    /// UTF-8.
    pub fn from_raw(raw_header: Vec<u8>) -> (r: Result<hnd_header_t, DecodeError>)
        ensures
            r is Ok <==> raw_header@.len() == 1024 && texts_utf8(raw_header@),
            r matches Ok(rec) ==> rec@ == spec_parse_header(raw_header@),
            r == Err::<hnd_header_t, DecodeError>(DecodeError::WrongBufferLength) <==> raw_header@.len() != 1024,
            r == Err::<hnd_header_t, DecodeError>(DecodeError::InvalidText) <==> raw_header@.len() == 1024 && !texts_utf8(raw_header@),
    {
        if raw_header.len() != 1024 {
            return Err(DecodeError::WrongBufferLength);
        }
        let mut b = Buf::from(raw_header);
        let sFileType = match b.read_string(32) {
            Ok(v) => v,
            Err(e) => {
                return Err(e);
            },
        };
        let FileLength = b.read_u32();
        let chasChecksumSpec = match b.read_string(4) {
            Ok(v) => v,
            Err(e) => {
                return Err(e);
            },
        };
        let nCheckSum = b.read_u32();
        let sCreationDate = match b.read_string(8) {
            Ok(v) => v,
            Err(e) => {
                return Err(e);
            },
        };
        let sCreationTime = match b.read_string(8) {
            Ok(v) => v,
            Err(e) => {
                return Err(e);
            },
        };
        let sPatientID = match b.read_string(16) {
            Ok(v) => v,
            Err(e) => {
                return Err(e);
            },
        };
        let nPatientSer = b.read_u32();
        let sSeriesID = match b.read_string(16) {
            Ok(v) => v,
            Err(e) => {
                return Err(e);
            },
        };
        let nSeriesSer = b.read_u32();
        let sSliceID = match b.read_string(16) {
            Ok(v) => v,
            Err(e) => {
                return Err(e);
            },
        };
        let nSliceSer = b.read_u32();
        let SizeX = b.read_u32();
        let SizeY = b.read_u32();
        let dSliceZPos = b.read_f64_bits();
        let sModality = match b.read_string(16) {
            Ok(v) => v,
            Err(e) => {
                return Err(e);
            },
        };
        let nWindow = b.read_u32();
        let nLevel = b.read_u32();
        let nPixelOffset = b.read_u32();
        let sImageType = match b.read_string(4) {
            Ok(v) => v,
            Err(e) => {
                return Err(e);
            },
        };
        let dGantryRtn = b.read_f64_bits();
        let dSAD = b.read_f64_bits();
        let dSFD = b.read_f64_bits();
        let dCollX1 = b.read_f64_bits();
        let dCollX2 = b.read_f64_bits();
        let dCollY1 = b.read_f64_bits();
        let dCollY2 = b.read_f64_bits();
        let dCollRtn = b.read_f64_bits();
        let dFieldX = b.read_f64_bits();
        let dFieldY = b.read_f64_bits();
        let dBladeX1 = b.read_f64_bits();
        let dBladeX2 = b.read_f64_bits();
        let dBladeY1 = b.read_f64_bits();
        let dBladeY2 = b.read_f64_bits();
        let dIDUPosLng = b.read_f64_bits();
        let dIDUPosLat = b.read_f64_bits();
        let dIDUPosVrt = b.read_f64_bits();
        let dIDUPosRtn = b.read_f64_bits();
        let dPatientSupportAngle = b.read_f64_bits();
        let dTableTopEccentricAngle = b.read_f64_bits();
        let dCouchVrt = b.read_f64_bits();
        let dCouchLng = b.read_f64_bits();
        let dCouchLat = b.read_f64_bits();
        let dIDUResolutionX = b.read_f64_bits();
        let dIDUResolutionY = b.read_f64_bits();
        let dImageResolutionX = b.read_f64_bits();
        let dImageResolutionY = b.read_f64_bits();
        let dEnergy = b.read_f64_bits();
        let dDoseRate = b.read_f64_bits();
        let dXRayKV = b.read_f64_bits();
        let dXRayMA = b.read_f64_bits();
        let dMetersetExposure = b.read_f64_bits();
        let dAcqAdjustment = b.read_f64_bits();
        let dCTProjectionAngle = b.read_f64_bits();
        let dCTNormChamber = b.read_f64_bits();
        let dGatingTimeTag = b.read_f64_bits();
        let dGating4DInfoX = b.read_f64_bits();
        let dGating4DInfoY = b.read_f64_bits();
        let dGating4DInfoZ = b.read_f64_bits();
        let dGating4DInfoTime = b.read_f64_bits();
        let rec = hnd_header_t {
            sFileType,
            FileLength,
            chasChecksumSpec,
            nCheckSum,
            sCreationDate,
            sCreationTime,
            sPatientID,
            nPatientSer,
            sSeriesID,
            nSeriesSer,
            sSliceID,
            nSliceSer,
            SizeX,
            SizeY,
            dSliceZPos,
            sModality,
            nWindow,
            nLevel,
            nPixelOffset,
            sImageType,
            dGantryRtn,
            dSAD,
            dSFD,
            dCollX1,
            dCollX2,
            dCollY1,
            dCollY2,
            dCollRtn,
            dFieldX,
            dFieldY,
            dBladeX1,
            dBladeX2,
            dBladeY1,
            dBladeY2,
            dIDUPosLng,
            dIDUPosLat,
            dIDUPosVrt,
            dIDUPosRtn,
            dPatientSupportAngle,
            dTableTopEccentricAngle,
            dCouchVrt,
            dCouchLng,
            dCouchLat,
            dIDUResolutionX,
            dIDUResolutionY,
            dImageResolutionX,
            dImageResolutionY,
            dEnergy,
            dDoseRate,
            dXRayKV,
            dXRayMA,
            dMetersetExposure,
            dAcqAdjustment,
            dCTProjectionAngle,
            dCTNormChamber,
            dGatingTimeTag,
            dGating4DInfoX,
            dGating4DInfoY,
            dGating4DInfoZ,
            dGating4DInfoTime,
        };
        proof {
            assert(rec@ =~= spec_parse_header(raw_header@));
        }
        Ok(rec)
    }
}

/// The wire form is exactly 1024 bytes long.
pub proof fn lemma_spec_header_bytes_len(v: HeaderV)
    ensures
        spec_header_bytes(v).len() == 1024,
{
    broadcast use lemma_le_bytes_of_len;

}
/// Byte equality at an offset carries a little-endian read across.
proof fn lemma_le_val_eq_piece(s: Seq<u8>, off: int, piece: Seq<u8>, n: nat)
    requires
        piece.len() == n,
        0 <= off,
        off + n <= s.len(),
        s.subrange(off, off + n) == piece,
    ensures
        le_val(s, off, n as int) == le_val(piece, 0, n as int),
{
    assert forall|j: int| 0 <= j < n implies #[trigger] s[off + j] == piece[0 + j] by {
        assert(piece[j] == s.subrange(off, off + n)[j]);
    }
    lemma_le_val_shift(s, off, piece, 0, n);
}

/// Law: header round trip. Parsing the wire form of a well-formed
/// record restores the record field for field, and the wire form parses
/// without error: it is 1024 bytes long and its text slots are
/// well-formed UTF-8. Together with the contracts of `to_raw` and
/// `from_raw` this states `from_raw(h.to_raw()) == Ok(h)`.
#[verifier::rlimit(100)]
pub proof fn lemma_header_round_trip(v: HeaderV)
    requires
        header_wf(v),
    ensures
        spec_header_bytes(v).len() == 1024,
        texts_utf8(spec_header_bytes(v)),
        spec_parse_header(spec_header_bytes(v)) == v,
{
    broadcast use lemma_le_bytes_of_len;

    lemma_spec_header_bytes_len(v);
    lemma_byte_base_values();
    let b = spec_header_bytes(v);
    assert(b.subrange(0, 32) =~= pad_bytes(v.sFileType, 32));
    lemma_text_slot(v.sFileType, 32);
    lemma_trim_pad(v.sFileType, 32);
    assert(b.subrange(32, 36) =~= le_bytes_of(v.FileLength as int, 4));
    lemma_le_val_eq_piece(b, 32, le_bytes_of(v.FileLength as int, 4), 4);
    lemma_le_val_of_bytes(v.FileLength as int, 4);
    assert(b.subrange(36, 40) =~= pad_bytes(v.chasChecksumSpec, 4));
    lemma_text_slot(v.chasChecksumSpec, 4);
    lemma_trim_pad(v.chasChecksumSpec, 4);
    assert(b.subrange(40, 44) =~= le_bytes_of(v.nCheckSum as int, 4));
    lemma_le_val_eq_piece(b, 40, le_bytes_of(v.nCheckSum as int, 4), 4);
    lemma_le_val_of_bytes(v.nCheckSum as int, 4);
    assert(b.subrange(44, 52) =~= pad_bytes(v.sCreationDate, 8));
    lemma_text_slot(v.sCreationDate, 8);
    lemma_trim_pad(v.sCreationDate, 8);
    assert(b.subrange(52, 60) =~= pad_bytes(v.sCreationTime, 8));
    lemma_text_slot(v.sCreationTime, 8);
    lemma_trim_pad(v.sCreationTime, 8);
    assert(b.subrange(60, 76) =~= pad_bytes(v.sPatientID, 16));
    lemma_text_slot(v.sPatientID, 16);
    lemma_trim_pad(v.sPatientID, 16);
    assert(b.subrange(76, 80) =~= le_bytes_of(v.nPatientSer as int, 4));
    lemma_le_val_eq_piece(b, 76, le_bytes_of(v.nPatientSer as int, 4), 4);
    lemma_le_val_of_bytes(v.nPatientSer as int, 4);
    assert(b.subrange(80, 96) =~= pad_bytes(v.sSeriesID, 16));
    lemma_text_slot(v.sSeriesID, 16);
    lemma_trim_pad(v.sSeriesID, 16);
    assert(b.subrange(96, 100) =~= le_bytes_of(v.nSeriesSer as int, 4));
    lemma_le_val_eq_piece(b, 96, le_bytes_of(v.nSeriesSer as int, 4), 4);
    lemma_le_val_of_bytes(v.nSeriesSer as int, 4);
    assert(b.subrange(100, 116) =~= pad_bytes(v.sSliceID, 16));
    lemma_text_slot(v.sSliceID, 16);
    lemma_trim_pad(v.sSliceID, 16);
    assert(b.subrange(116, 120) =~= le_bytes_of(v.nSliceSer as int, 4));
    lemma_le_val_eq_piece(b, 116, le_bytes_of(v.nSliceSer as int, 4), 4);
    lemma_le_val_of_bytes(v.nSliceSer as int, 4);
    assert(b.subrange(120, 124) =~= le_bytes_of(v.SizeX as int, 4));
    lemma_le_val_eq_piece(b, 120, le_bytes_of(v.SizeX as int, 4), 4);
    lemma_le_val_of_bytes(v.SizeX as int, 4);
    assert(b.subrange(124, 128) =~= le_bytes_of(v.SizeY as int, 4));
    lemma_le_val_eq_piece(b, 124, le_bytes_of(v.SizeY as int, 4), 4);
    lemma_le_val_of_bytes(v.SizeY as int, 4);
    assert(b.subrange(128, 136) =~= le_bytes_of(v.dSliceZPos as int, 8));
    lemma_le_val_eq_piece(b, 128, le_bytes_of(v.dSliceZPos as int, 8), 8);
    lemma_le_val_of_bytes(v.dSliceZPos as int, 8);
    assert(b.subrange(136, 152) =~= pad_bytes(v.sModality, 16));
    lemma_text_slot(v.sModality, 16);
    lemma_trim_pad(v.sModality, 16);
    assert(b.subrange(152, 156) =~= le_bytes_of(v.nWindow as int, 4));
    lemma_le_val_eq_piece(b, 152, le_bytes_of(v.nWindow as int, 4), 4);
    lemma_le_val_of_bytes(v.nWindow as int, 4);
    assert(b.subrange(156, 160) =~= le_bytes_of(v.nLevel as int, 4));
    lemma_le_val_eq_piece(b, 156, le_bytes_of(v.nLevel as int, 4), 4);
    lemma_le_val_of_bytes(v.nLevel as int, 4);
    assert(b.subrange(160, 164) =~= le_bytes_of(v.nPixelOffset as int, 4));
    lemma_le_val_eq_piece(b, 160, le_bytes_of(v.nPixelOffset as int, 4), 4);
    lemma_le_val_of_bytes(v.nPixelOffset as int, 4);
    assert(b.subrange(164, 168) =~= pad_bytes(v.sImageType, 4));
    lemma_text_slot(v.sImageType, 4);
    lemma_trim_pad(v.sImageType, 4);
    assert(b.subrange(168, 176) =~= le_bytes_of(v.dGantryRtn as int, 8));
    lemma_le_val_eq_piece(b, 168, le_bytes_of(v.dGantryRtn as int, 8), 8);
    lemma_le_val_of_bytes(v.dGantryRtn as int, 8);
    assert(b.subrange(176, 184) =~= le_bytes_of(v.dSAD as int, 8));
    lemma_le_val_eq_piece(b, 176, le_bytes_of(v.dSAD as int, 8), 8);
    lemma_le_val_of_bytes(v.dSAD as int, 8);
    assert(b.subrange(184, 192) =~= le_bytes_of(v.dSFD as int, 8));
    lemma_le_val_eq_piece(b, 184, le_bytes_of(v.dSFD as int, 8), 8);
    lemma_le_val_of_bytes(v.dSFD as int, 8);
    assert(b.subrange(192, 200) =~= le_bytes_of(v.dCollX1 as int, 8));
    lemma_le_val_eq_piece(b, 192, le_bytes_of(v.dCollX1 as int, 8), 8);
    lemma_le_val_of_bytes(v.dCollX1 as int, 8);
    assert(b.subrange(200, 208) =~= le_bytes_of(v.dCollX2 as int, 8));
    lemma_le_val_eq_piece(b, 200, le_bytes_of(v.dCollX2 as int, 8), 8);
    lemma_le_val_of_bytes(v.dCollX2 as int, 8);
    assert(b.subrange(208, 216) =~= le_bytes_of(v.dCollY1 as int, 8));
    lemma_le_val_eq_piece(b, 208, le_bytes_of(v.dCollY1 as int, 8), 8);
    lemma_le_val_of_bytes(v.dCollY1 as int, 8);
    assert(b.subrange(216, 224) =~= le_bytes_of(v.dCollY2 as int, 8));
    lemma_le_val_eq_piece(b, 216, le_bytes_of(v.dCollY2 as int, 8), 8);
    lemma_le_val_of_bytes(v.dCollY2 as int, 8);
    assert(b.subrange(224, 232) =~= le_bytes_of(v.dCollRtn as int, 8));
    lemma_le_val_eq_piece(b, 224, le_bytes_of(v.dCollRtn as int, 8), 8);
    lemma_le_val_of_bytes(v.dCollRtn as int, 8);
    assert(b.subrange(232, 240) =~= le_bytes_of(v.dFieldX as int, 8));
    lemma_le_val_eq_piece(b, 232, le_bytes_of(v.dFieldX as int, 8), 8);
    lemma_le_val_of_bytes(v.dFieldX as int, 8);
    assert(b.subrange(240, 248) =~= le_bytes_of(v.dFieldY as int, 8));
    lemma_le_val_eq_piece(b, 240, le_bytes_of(v.dFieldY as int, 8), 8);
    lemma_le_val_of_bytes(v.dFieldY as int, 8);
    assert(b.subrange(248, 256) =~= le_bytes_of(v.dBladeX1 as int, 8));
    lemma_le_val_eq_piece(b, 248, le_bytes_of(v.dBladeX1 as int, 8), 8);
    lemma_le_val_of_bytes(v.dBladeX1 as int, 8);
    assert(b.subrange(256, 264) =~= le_bytes_of(v.dBladeX2 as int, 8));
    lemma_le_val_eq_piece(b, 256, le_bytes_of(v.dBladeX2 as int, 8), 8);
    lemma_le_val_of_bytes(v.dBladeX2 as int, 8);
    assert(b.subrange(264, 272) =~= le_bytes_of(v.dBladeY1 as int, 8));
    lemma_le_val_eq_piece(b, 264, le_bytes_of(v.dBladeY1 as int, 8), 8);
    lemma_le_val_of_bytes(v.dBladeY1 as int, 8);
    assert(b.subrange(272, 280) =~= le_bytes_of(v.dBladeY2 as int, 8));
    lemma_le_val_eq_piece(b, 272, le_bytes_of(v.dBladeY2 as int, 8), 8);
    lemma_le_val_of_bytes(v.dBladeY2 as int, 8);
    assert(b.subrange(280, 288) =~= le_bytes_of(v.dIDUPosLng as int, 8));
    lemma_le_val_eq_piece(b, 280, le_bytes_of(v.dIDUPosLng as int, 8), 8);
    lemma_le_val_of_bytes(v.dIDUPosLng as int, 8);
    assert(b.subrange(288, 296) =~= le_bytes_of(v.dIDUPosLat as int, 8));
    lemma_le_val_eq_piece(b, 288, le_bytes_of(v.dIDUPosLat as int, 8), 8);
    lemma_le_val_of_bytes(v.dIDUPosLat as int, 8);
    assert(b.subrange(296, 304) =~= le_bytes_of(v.dIDUPosVrt as int, 8));
    lemma_le_val_eq_piece(b, 296, le_bytes_of(v.dIDUPosVrt as int, 8), 8);
    lemma_le_val_of_bytes(v.dIDUPosVrt as int, 8);
    assert(b.subrange(304, 312) =~= le_bytes_of(v.dIDUPosRtn as int, 8));
    lemma_le_val_eq_piece(b, 304, le_bytes_of(v.dIDUPosRtn as int, 8), 8);
    lemma_le_val_of_bytes(v.dIDUPosRtn as int, 8);
    assert(b.subrange(312, 320) =~= le_bytes_of(v.dPatientSupportAngle as int, 8));
    lemma_le_val_eq_piece(b, 312, le_bytes_of(v.dPatientSupportAngle as int, 8), 8);
    lemma_le_val_of_bytes(v.dPatientSupportAngle as int, 8);
    assert(b.subrange(320, 328) =~= le_bytes_of(v.dTableTopEccentricAngle as int, 8));
    lemma_le_val_eq_piece(b, 320, le_bytes_of(v.dTableTopEccentricAngle as int, 8), 8);
    lemma_le_val_of_bytes(v.dTableTopEccentricAngle as int, 8);
    assert(b.subrange(328, 336) =~= le_bytes_of(v.dCouchVrt as int, 8));
    lemma_le_val_eq_piece(b, 328, le_bytes_of(v.dCouchVrt as int, 8), 8);
    lemma_le_val_of_bytes(v.dCouchVrt as int, 8);
    assert(b.subrange(336, 344) =~= le_bytes_of(v.dCouchLng as int, 8));
    lemma_le_val_eq_piece(b, 336, le_bytes_of(v.dCouchLng as int, 8), 8);
    lemma_le_val_of_bytes(v.dCouchLng as int, 8);
    assert(b.subrange(344, 352) =~= le_bytes_of(v.dCouchLat as int, 8));
    lemma_le_val_eq_piece(b, 344, le_bytes_of(v.dCouchLat as int, 8), 8);
    lemma_le_val_of_bytes(v.dCouchLat as int, 8);
    assert(b.subrange(352, 360) =~= le_bytes_of(v.dIDUResolutionX as int, 8));
    lemma_le_val_eq_piece(b, 352, le_bytes_of(v.dIDUResolutionX as int, 8), 8);
    lemma_le_val_of_bytes(v.dIDUResolutionX as int, 8);
    assert(b.subrange(360, 368) =~= le_bytes_of(v.dIDUResolutionY as int, 8));
    lemma_le_val_eq_piece(b, 360, le_bytes_of(v.dIDUResolutionY as int, 8), 8);
    lemma_le_val_of_bytes(v.dIDUResolutionY as int, 8);
    assert(b.subrange(368, 376) =~= le_bytes_of(v.dImageResolutionX as int, 8));
    lemma_le_val_eq_piece(b, 368, le_bytes_of(v.dImageResolutionX as int, 8), 8);
    lemma_le_val_of_bytes(v.dImageResolutionX as int, 8);
    assert(b.subrange(376, 384) =~= le_bytes_of(v.dImageResolutionY as int, 8));
    lemma_le_val_eq_piece(b, 376, le_bytes_of(v.dImageResolutionY as int, 8), 8);
    lemma_le_val_of_bytes(v.dImageResolutionY as int, 8);
    assert(b.subrange(384, 392) =~= le_bytes_of(v.dEnergy as int, 8));
    lemma_le_val_eq_piece(b, 384, le_bytes_of(v.dEnergy as int, 8), 8);
    lemma_le_val_of_bytes(v.dEnergy as int, 8);
    assert(b.subrange(392, 400) =~= le_bytes_of(v.dDoseRate as int, 8));
    lemma_le_val_eq_piece(b, 392, le_bytes_of(v.dDoseRate as int, 8), 8);
    lemma_le_val_of_bytes(v.dDoseRate as int, 8);
    assert(b.subrange(400, 408) =~= le_bytes_of(v.dXRayKV as int, 8));
    lemma_le_val_eq_piece(b, 400, le_bytes_of(v.dXRayKV as int, 8), 8);
    lemma_le_val_of_bytes(v.dXRayKV as int, 8);
    assert(b.subrange(408, 416) =~= le_bytes_of(v.dXRayMA as int, 8));
    lemma_le_val_eq_piece(b, 408, le_bytes_of(v.dXRayMA as int, 8), 8);
    lemma_le_val_of_bytes(v.dXRayMA as int, 8);
    assert(b.subrange(416, 424) =~= le_bytes_of(v.dMetersetExposure as int, 8));
    lemma_le_val_eq_piece(b, 416, le_bytes_of(v.dMetersetExposure as int, 8), 8);
    lemma_le_val_of_bytes(v.dMetersetExposure as int, 8);
    assert(b.subrange(424, 432) =~= le_bytes_of(v.dAcqAdjustment as int, 8));
    lemma_le_val_eq_piece(b, 424, le_bytes_of(v.dAcqAdjustment as int, 8), 8);
    lemma_le_val_of_bytes(v.dAcqAdjustment as int, 8);
    assert(b.subrange(432, 440) =~= le_bytes_of(v.dCTProjectionAngle as int, 8));
    lemma_le_val_eq_piece(b, 432, le_bytes_of(v.dCTProjectionAngle as int, 8), 8);
    lemma_le_val_of_bytes(v.dCTProjectionAngle as int, 8);
    assert(b.subrange(440, 448) =~= le_bytes_of(v.dCTNormChamber as int, 8));
    lemma_le_val_eq_piece(b, 440, le_bytes_of(v.dCTNormChamber as int, 8), 8);
    lemma_le_val_of_bytes(v.dCTNormChamber as int, 8);
    assert(b.subrange(448, 456) =~= le_bytes_of(v.dGatingTimeTag as int, 8));
    lemma_le_val_eq_piece(b, 448, le_bytes_of(v.dGatingTimeTag as int, 8), 8);
    lemma_le_val_of_bytes(v.dGatingTimeTag as int, 8);
    assert(b.subrange(456, 464) =~= le_bytes_of(v.dGating4DInfoX as int, 8));
    lemma_le_val_eq_piece(b, 456, le_bytes_of(v.dGating4DInfoX as int, 8), 8);
    lemma_le_val_of_bytes(v.dGating4DInfoX as int, 8);
    assert(b.subrange(464, 472) =~= le_bytes_of(v.dGating4DInfoY as int, 8));
    lemma_le_val_eq_piece(b, 464, le_bytes_of(v.dGating4DInfoY as int, 8), 8);
    lemma_le_val_of_bytes(v.dGating4DInfoY as int, 8);
    assert(b.subrange(472, 480) =~= le_bytes_of(v.dGating4DInfoZ as int, 8));
    lemma_le_val_eq_piece(b, 472, le_bytes_of(v.dGating4DInfoZ as int, 8), 8);
    lemma_le_val_of_bytes(v.dGating4DInfoZ as int, 8);
    assert(b.subrange(480, 488) =~= le_bytes_of(v.dGating4DInfoTime as int, 8));
    lemma_le_val_eq_piece(b, 480, le_bytes_of(v.dGating4DInfoTime as int, 8), 8);
    lemma_le_val_of_bytes(v.dGating4DInfoTime as int, 8);
    assert(spec_parse_header(b) =~= v);
}

/// A well-formed text field padded to its slot width stays well-formed
/// UTF-8: the zero padding is ASCII.
proof fn lemma_text_slot(f: Seq<u8>, slot: nat)
    requires
        f.len() <= slot,
        is_utf8(f),
    ensures
        is_utf8(pad_bytes(f, slot)),
{
    let z = pad_bytes(Seq::<u8>::empty(), (slot - f.len()) as nat);
    lemma_is_utf8_ascii(z);
    lemma_is_utf8_append(f, z);
    assert(pad_bytes(f, slot) =~= f + z);
}

/// Law: byte-level identity. Re-serialising a parsed 1024-byte header
/// whose tail (the bytes past the last field) is zero gives back the
/// very buffer.
#[verifier::rlimit(100)]
pub proof fn lemma_header_bytes_parse(b: Seq<u8>)
    requires
        b.len() == 1024,
        forall|i: int| 488 <= i < 1024 ==> b[i] == 0,
    ensures
        spec_header_bytes(spec_parse_header(b)) == b,
{
    broadcast use lemma_le_bytes_of_len;

    lemma_byte_base_values();
    let v = spec_parse_header(b);
    lemma_pad_trim(b.subrange(0, 32));
    lemma_le_val_bound(b, 32, 4);
    lemma_le_bytes_of_val(b, 32, 4);
    lemma_pad_trim(b.subrange(36, 40));
    lemma_le_val_bound(b, 40, 4);
    lemma_le_bytes_of_val(b, 40, 4);
    lemma_pad_trim(b.subrange(44, 52));
    lemma_pad_trim(b.subrange(52, 60));
    lemma_pad_trim(b.subrange(60, 76));
    lemma_le_val_bound(b, 76, 4);
    lemma_le_bytes_of_val(b, 76, 4);
    lemma_pad_trim(b.subrange(80, 96));
    lemma_le_val_bound(b, 96, 4);
    lemma_le_bytes_of_val(b, 96, 4);
    lemma_pad_trim(b.subrange(100, 116));
    lemma_le_val_bound(b, 116, 4);
    lemma_le_bytes_of_val(b, 116, 4);
    lemma_le_val_bound(b, 120, 4);
    lemma_le_bytes_of_val(b, 120, 4);
    lemma_le_val_bound(b, 124, 4);
    lemma_le_bytes_of_val(b, 124, 4);
    lemma_le_val_bound(b, 128, 8);
    lemma_le_bytes_of_val(b, 128, 8);
    lemma_pad_trim(b.subrange(136, 152));
    lemma_le_val_bound(b, 152, 4);
    lemma_le_bytes_of_val(b, 152, 4);
    lemma_le_val_bound(b, 156, 4);
    lemma_le_bytes_of_val(b, 156, 4);
    lemma_le_val_bound(b, 160, 4);
    lemma_le_bytes_of_val(b, 160, 4);
    lemma_pad_trim(b.subrange(164, 168));
    lemma_le_val_bound(b, 168, 8);
    lemma_le_bytes_of_val(b, 168, 8);
    lemma_le_val_bound(b, 176, 8);
    lemma_le_bytes_of_val(b, 176, 8);
    lemma_le_val_bound(b, 184, 8);
    lemma_le_bytes_of_val(b, 184, 8);
    lemma_le_val_bound(b, 192, 8);
    lemma_le_bytes_of_val(b, 192, 8);
    lemma_le_val_bound(b, 200, 8);
    lemma_le_bytes_of_val(b, 200, 8);
    lemma_le_val_bound(b, 208, 8);
    lemma_le_bytes_of_val(b, 208, 8);
    lemma_le_val_bound(b, 216, 8);
    lemma_le_bytes_of_val(b, 216, 8);
    lemma_le_val_bound(b, 224, 8);
    lemma_le_bytes_of_val(b, 224, 8);
    lemma_le_val_bound(b, 232, 8);
    lemma_le_bytes_of_val(b, 232, 8);
    lemma_le_val_bound(b, 240, 8);
    lemma_le_bytes_of_val(b, 240, 8);
    lemma_le_val_bound(b, 248, 8);
    lemma_le_bytes_of_val(b, 248, 8);
    lemma_le_val_bound(b, 256, 8);
    lemma_le_bytes_of_val(b, 256, 8);
    lemma_le_val_bound(b, 264, 8);
    lemma_le_bytes_of_val(b, 264, 8);
    lemma_le_val_bound(b, 272, 8);
    lemma_le_bytes_of_val(b, 272, 8);
    lemma_le_val_bound(b, 280, 8);
    lemma_le_bytes_of_val(b, 280, 8);
    lemma_le_val_bound(b, 288, 8);
    lemma_le_bytes_of_val(b, 288, 8);
    lemma_le_val_bound(b, 296, 8);
    lemma_le_bytes_of_val(b, 296, 8);
    lemma_le_val_bound(b, 304, 8);
    lemma_le_bytes_of_val(b, 304, 8);
    lemma_le_val_bound(b, 312, 8);
    lemma_le_bytes_of_val(b, 312, 8);
    lemma_le_val_bound(b, 320, 8);
    lemma_le_bytes_of_val(b, 320, 8);
    lemma_le_val_bound(b, 328, 8);
    lemma_le_bytes_of_val(b, 328, 8);
    lemma_le_val_bound(b, 336, 8);
    lemma_le_bytes_of_val(b, 336, 8);
    lemma_le_val_bound(b, 344, 8);
    lemma_le_bytes_of_val(b, 344, 8);
    lemma_le_val_bound(b, 352, 8);
    lemma_le_bytes_of_val(b, 352, 8);
    lemma_le_val_bound(b, 360, 8);
    lemma_le_bytes_of_val(b, 360, 8);
    lemma_le_val_bound(b, 368, 8);
    lemma_le_bytes_of_val(b, 368, 8);
    lemma_le_val_bound(b, 376, 8);
    lemma_le_bytes_of_val(b, 376, 8);
    lemma_le_val_bound(b, 384, 8);
    lemma_le_bytes_of_val(b, 384, 8);
    lemma_le_val_bound(b, 392, 8);
    lemma_le_bytes_of_val(b, 392, 8);
    lemma_le_val_bound(b, 400, 8);
    lemma_le_bytes_of_val(b, 400, 8);
    lemma_le_val_bound(b, 408, 8);
    lemma_le_bytes_of_val(b, 408, 8);
    lemma_le_val_bound(b, 416, 8);
    lemma_le_bytes_of_val(b, 416, 8);
    lemma_le_val_bound(b, 424, 8);
    lemma_le_bytes_of_val(b, 424, 8);
    lemma_le_val_bound(b, 432, 8);
    lemma_le_bytes_of_val(b, 432, 8);
    lemma_le_val_bound(b, 440, 8);
    lemma_le_bytes_of_val(b, 440, 8);
    lemma_le_val_bound(b, 448, 8);
    lemma_le_bytes_of_val(b, 448, 8);
    lemma_le_val_bound(b, 456, 8);
    lemma_le_bytes_of_val(b, 456, 8);
    lemma_le_val_bound(b, 464, 8);
    lemma_le_bytes_of_val(b, 464, 8);
    lemma_le_val_bound(b, 472, 8);
    lemma_le_bytes_of_val(b, 472, 8);
    lemma_le_val_bound(b, 480, 8);
    lemma_le_bytes_of_val(b, 480, 8);
    assert(pad_bytes(Seq::<u8>::empty(), 536) =~= b.subrange(488, 1024));
    assert(spec_header_bytes(v) =~= b);
}

} // verus!
