//! The static parameter tables of the supported microcontrollers.

use vstd::prelude::*;

use crate::builder::McuType;
use crate::util::Bytes;

verus! {

/// The static configuration of the used chip.  The actually used EEPROM
/// size is configured elsewhere.
pub struct McuParameters {
    /// Also called P-Flash.
    pub program_flash_size: Bytes,
    /// The second flash bank (E-Flash / FlexNVM), usable as program flash
    /// or partially as the backing store of the EEPROM.
    pub flexnvm_size: Bytes,
    pub flexram_eeprom_size: Bytes,
    /// The selectable EEPROM sizes, each with the bit pattern that must be
    /// written into EEESIZE to select it.
    pub eeprom_size_configurations: Vec<(Bytes, u8)>,
    pub support_eeprom_split: bool,
    /// The selectable FlexNVM partitions, each with the bit pattern that
    /// must be written into DEPART to select it; the byte count is the part
    /// reserved as EEPROM backup.
    pub flexnvm_partition_configurations: Vec<(Bytes, u8)>,
    pub sram_size: Bytes,
}

/// The first configuration entry matching `sz` bytes, if any: its register
/// bit pattern.
pub open spec fn spec_find_pattern(s: Seq<(Bytes, u8)>, sz: u32) -> Option<u8>
    decreases s.len(),
{
    if s.len() == 0 {
        None
    } else if s[0].0.0 == sz {
        Some(s[0].1)
    } else {
        spec_find_pattern(s.drop_first(), sz)
    }
}

/// The supported-size listing: each entry's size rendered as the linker
/// script spells it, followed by a comma and a space.
pub open spec fn spec_size_list(s: Seq<(Bytes, u8)>) -> Seq<char>
    decreases s.len(),
{
    if s.len() == 0 {
        Seq::empty()
    } else {
        s[0].0.spec_str() + ", "@ + spec_size_list(s.drop_first())
    }
}

/// As `spec_size_list`, but listing `total - entry` for each entry.
pub open spec fn spec_backup_size_list(s: Seq<(Bytes, u8)>, total: u32) -> Seq<char>
    decreases s.len(),
{
    if s.len() == 0 {
        Seq::empty()
    } else {
        Bytes((total - s[0].0.0) as u32).spec_str() + ", "@ + spec_backup_size_list(
            s.drop_first(),
            total,
        )
    }
}

/// The parameter table of the MK20DX256VLH7.
pub open spec fn spec_is_mk20dx256vlh7_params(p: McuParameters) -> bool {
    &&& p.program_flash_size.0 == 262144
    &&& p.flexnvm_size.0 == 32768
    &&& p.flexram_eeprom_size.0 == 2048
    &&& p.eeprom_size_configurations@ == seq![
        (Bytes(2048), 3u8),
        (Bytes(1024), 4u8),
        (Bytes(512), 5u8),
        (Bytes(256), 6u8),
        (Bytes(128), 7u8),
        (Bytes(64), 7u8),
        (Bytes(32), 9u8),
        (Bytes(0), 15u8),
    ]
    &&& p.support_eeprom_split == false
    &&& p.flexnvm_partition_configurations@ == seq![
        (Bytes(0), 0u8),
        (Bytes(8192), 1u8),
        (Bytes(16384), 2u8),
        (Bytes(24576), 9u8),
        (Bytes(32768), 8u8),
    ]
    &&& p.sram_size.0 == 65536
}

impl McuParameters {
    pub fn get_program_flash_size(&self) -> (r: Bytes)
        ensures
            r == self.program_flash_size,
    {
        self.program_flash_size
    }

    pub fn get_flexnvm_size(&self) -> (r: Bytes)
        ensures
            r == self.flexnvm_size,
    {
        self.flexnvm_size
    }

    pub fn get_flexram_eeprom_size(&self) -> (r: Bytes)
        ensures
            r == self.flexram_eeprom_size,
    {
        self.flexram_eeprom_size
    }

    pub fn get_sram_size(&self) -> (r: Bytes)
        ensures
            r == self.sram_size,
    {
        self.sram_size
    }

    pub fn supports_eeprom_split(&self) -> (r: bool)
        ensures
            r == self.support_eeprom_split,
    {
        self.support_eeprom_split
    }

    /// The EEESIZE bit pattern for the given EEPROM size, if the chip
    /// supports that size.
    pub fn supports_eeprom_size(&self, eeprom_size: Bytes) -> (r: Option<u8>)
        ensures
            r == spec_find_pattern(self.eeprom_size_configurations@, eeprom_size.0),
    {
        Self::find_pattern(&self.eeprom_size_configurations, eeprom_size)
    }

    /// The DEPART bit pattern for the given FlexNVM partition, if the chip
    /// supports it.
    pub fn supports_flexnvm_partition_size(&self, flexnvm_size: Bytes) -> (r: Option<u8>)
        ensures
            r == spec_find_pattern(self.flexnvm_partition_configurations@, flexnvm_size.0),
    {
        Self::find_pattern(&self.flexnvm_partition_configurations, flexnvm_size)
    }

    fn find_pattern(s: &Vec<(Bytes, u8)>, sz: Bytes) -> (r: Option<u8>)
        ensures
            r == spec_find_pattern(s@, sz.0),
    {
        let n = s.len();
        proof {
            assert(s@.skip(0) =~= s@);
        }
        for i in 0..n
            invariant
                n == s@.len(),
                spec_find_pattern(s@, sz.0) == spec_find_pattern(s@.skip(i as int), sz.0),
        {
            proof {
                assert(s@.skip(i as int)[0] == s@[i as int]);
                assert(s@.skip(i as int).drop_first() =~= s@.skip(i + 1));
            }
            if s[i].0.0 == sz.0 {
                return Some(s[i].1);
            }
        }
        proof {
            assert(s@.skip(n as int).len() == 0);
        }
        None
    }

    /// Renders the supported EEPROM sizes, comma separated.
    pub fn supported_eeprom_sizes(&self) -> (r: String)
        ensures
            r@ == spec_size_list(self.eeprom_size_configurations@),
    {
        Self::size_list(&self.eeprom_size_configurations)
    }

    /// Renders the supported FlexNVM partition sizes, comma separated.
    pub fn supported_flexnvm_partition_sizes(&self) -> (r: String)
        ensures
            r@ == spec_size_list(self.flexnvm_partition_configurations@),
    {
        Self::size_list(&self.flexnvm_partition_configurations)
    }

    fn size_list(s: &Vec<(Bytes, u8)>) -> (r: String)
        ensures
            r@ == spec_size_list(s@),
    {
        let mut out = String::new();
        let n = s.len();
        proof {
            assert(s@.skip(0) =~= s@);
            assert(out@ + spec_size_list(s@.skip(0)) =~= spec_size_list(s@));
        }
        for i in 0..n
            invariant
                n == s@.len(),
                out@ + spec_size_list(s@.skip(i as int)) == spec_size_list(s@),
        {
            proof {
                assert(s@.skip(i as int)[0] == s@[i as int]);
                assert(s@.skip(i as int).drop_first() =~= s@.skip(i + 1));
            }
            let piece = s[i].0.str();
            out.append(piece.as_str());
            out.append(", ");
            proof {
                reveal_strlit(", ");
                assert(out@ + spec_size_list(s@.skip(i + 1)) =~= spec_size_list(s@));
            }
        }
        proof {
            assert(spec_size_list(s@.skip(n as int)).len() == 0);
            assert(out@ =~= spec_size_list(s@));
        }
        out
    }

    /// Renders the supported EEPROM backup sizes, comma separated: for each
    /// FlexNVM partition, the part of the FlexNVM left to it.
    pub fn supported_eeprom_backup_sizes(&self) -> (r: String)
        requires
            forall|j: int|
                0 <= j < self.flexnvm_partition_configurations@.len()
                    ==> (#[trigger] self.flexnvm_partition_configurations@[j]).0.0
                    <= self.flexnvm_size.0,
        ensures
            r@ == spec_backup_size_list(
                self.flexnvm_partition_configurations@,
                self.flexnvm_size.0,
            ),
    {
        let s = &self.flexnvm_partition_configurations;
        let total = self.flexnvm_size.0;
        let mut out = String::new();
        let n = s.len();
        proof {
            assert(s@.skip(0) =~= s@);
            assert(out@ + spec_backup_size_list(s@.skip(0), total) =~= spec_backup_size_list(
                s@,
                total,
            ));
        }
        for i in 0..n
            invariant
                n == s@.len(),
                s == &self.flexnvm_partition_configurations,
                total == self.flexnvm_size.0,
                forall|j: int| 0 <= j < n ==> (#[trigger] s@[j]).0.0 <= total,
                out@ + spec_backup_size_list(s@.skip(i as int), total) == spec_backup_size_list(
                    s@,
                    total,
                ),
        {
            proof {
                assert(s@.skip(i as int)[0] == s@[i as int]);
                assert(s@.skip(i as int).drop_first() =~= s@.skip(i + 1));
            }
            let piece = Bytes(total - s[i].0.0).str();
            out.append(piece.as_str());
            out.append(", ");
            proof {
                reveal_strlit(", ");
                assert(out@ + spec_backup_size_list(s@.skip(i + 1), total)
                    =~= spec_backup_size_list(s@, total));
            }
        }
        proof {
            assert(spec_backup_size_list(s@.skip(n as int), total).len() == 0);
            assert(out@ =~= spec_backup_size_list(s@, total));
        }
        out
    }

    /// The parameter table of the given part; only the MK20DX256VLH7 is
    /// implemented.
    pub fn from(t: McuType) -> (r: McuParameters)
        requires
            t is Mk20dx256vlh7,
        ensures
            spec_is_mk20dx256vlh7_params(r),
    {
        let mut eeprom_size_configurations: Vec<(Bytes, u8)> = Vec::new();
        eeprom_size_configurations.push((Bytes(2048), 3));
        eeprom_size_configurations.push((Bytes(1024), 4));
        eeprom_size_configurations.push((Bytes(512), 5));
        eeprom_size_configurations.push((Bytes(256), 6));
        eeprom_size_configurations.push((Bytes(128), 7));
        eeprom_size_configurations.push((Bytes(64), 7));
        eeprom_size_configurations.push((Bytes(32), 9));
        eeprom_size_configurations.push((Bytes(0), 15));
        let mut flexnvm_partition_configurations: Vec<(Bytes, u8)> = Vec::new();
        flexnvm_partition_configurations.push((Bytes(0), 0));
        flexnvm_partition_configurations.push((Bytes(8192), 1));
        flexnvm_partition_configurations.push((Bytes(16384), 2));
        flexnvm_partition_configurations.push((Bytes(24576), 9));
        flexnvm_partition_configurations.push((Bytes(32768), 8));
        let r = McuParameters {
            program_flash_size: Bytes(262144),
            flexnvm_size: Bytes(32768),
            flexram_eeprom_size: Bytes(2048),
            eeprom_size_configurations,
            support_eeprom_split: false,
            flexnvm_partition_configurations,
            sram_size: Bytes(65536),
        };
        proof {
            assert(r.eeprom_size_configurations@ =~= seq![
                (Bytes(2048), 3u8),
                (Bytes(1024), 4u8),
                (Bytes(512), 5u8),
                (Bytes(256), 6u8),
                (Bytes(128), 7u8),
                (Bytes(64), 7u8),
                (Bytes(32), 9u8),
                (Bytes(0), 15u8),
            ]);
            assert(r.flexnvm_partition_configurations@ =~= seq![
                (Bytes(0), 0u8),
                (Bytes(8192), 1u8),
                (Bytes(16384), 2u8),
                (Bytes(24576), 9u8),
                (Bytes(32768), 8u8),
            ]);
        }
        r
    }
}

} // verus!
