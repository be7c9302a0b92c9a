//! Initial register state of an encrypted guest.
use vstd::prelude::*;

verus! {

/// Access rights of a segment as the processor keeps them.
///
/// From bit 0 up: type (4 bits), code-or-data, privilege level (2 bits),
/// present, available, 64-bit, default size, granularity; the rest is
/// reserved.
#[derive(Clone, Copy, Debug, PartialEq, Eq, Structural)]
pub struct SegAccess {
    bits: u32,
}

impl SegAccess {
    /// The rights as a number.
    pub closed spec fn raw(self) -> u32 {
        self.bits
    }

    /// Rights from a number.
    pub fn from_bits(bits: u32) -> (r: SegAccess)
        ensures
            r.raw() == bits,
    {
        SegAccess { bits }
    }

    /// The rights as a number.
    pub fn into_bits(self) -> (r: u32)
        ensures
            r == self.raw(),
    {
        self.bits
    }

    /// Bits 0 to 3.
    pub fn seg_type(&self) -> (r: u8)
        ensures
            r as u32 == self.raw() & 0xf,
    {
        let b: u32 = self.bits;
        assert((b & 0xf) as u8 as u32 == b & 0xf) by (bit_vector);
        (b & 0xf) as u8
    }

    /// Bit 4.
    pub fn s_code_data(&self) -> (r: bool)
        ensures
            r == (self.raw() & 0x10 != 0),
    {
        self.bits & 0x10 != 0
    }

    /// Bits 5 and 6.
    pub fn priv_level(&self) -> (r: u8)
        ensures
            r as u32 == (self.raw() >> 5) & 0x3,
    {
        let b: u32 = self.bits;
        assert(((b >> 5) & 0x3) as u8 as u32 == (b >> 5) & 0x3) by (bit_vector);
        ((b >> 5) & 0x3) as u8
    }

    /// Bit 7.
    pub fn present(&self) -> (r: bool)
        ensures
            r == (self.raw() & 0x80 != 0),
    {
        self.bits & 0x80 != 0
    }

    /// Bit 8.
    pub fn available(&self) -> (r: bool)
        ensures
            r == (self.raw() & 0x100 != 0),
    {
        self.bits & 0x100 != 0
    }

    /// Bit 9.
    pub fn l_64bit(&self) -> (r: bool)
        ensures
            r == (self.raw() & 0x200 != 0),
    {
        self.bits & 0x200 != 0
    }

    /// Bit 10.
    pub fn db_size_32(&self) -> (r: bool)
        ensures
            r == (self.raw() & 0x400 != 0),
    {
        self.bits & 0x400 != 0
    }

    /// Bit 11.
    pub fn granularity(&self) -> (r: bool)
        ensures
            r == (self.raw() & 0x800 != 0),
    {
        self.bits & 0x800 != 0
    }
}

/// A segment in a saved guest state.
#[derive(Clone, Copy, Debug, PartialEq, Eq, Structural)]
pub struct SevSelector {
    pub selector: u16,
    pub attrib: u16,
    pub limit: u32,
    pub base: u64,
}

/// A segment register for KVM.
#[derive(Clone, Copy, Debug, PartialEq, Eq, Structural)]
pub struct Segment {
    pub base: u64,
    pub limit: u32,
    pub selector: u16,
    pub type_: u8,
    pub present: u8,
    pub dpl: u8,
    pub db: u8,
    pub s: u8,
    pub l: u8,
    pub g: u8,
    pub avl: u8,
    pub unusable: u8,
}

/// One if a bit is set.
pub open spec fn flag(bits: u32, mask: u32) -> u8 {
    if bits & mask != 0 {
        1
    } else {
        0
    }
}

/// The segment register for a saved segment.
pub open spec fn segment_of(s: SevSelector) -> Segment {
    let bits = s.attrib as u32;
    Segment {
        base: s.base,
        limit: s.limit,
        selector: s.selector,
        type_: (bits & 0xf) as u8,
        present: flag(bits, 0x80),
        dpl: ((bits >> 5) & 0x3) as u8,
        db: flag(bits, 0x400),
        s: flag(bits, 0x10),
        l: flag(bits, 0x200),
        g: flag(bits, 0x800),
        avl: flag(bits, 0x100),
        unusable: 0,
    }
}

fn flag_byte(b: bool) -> (r: u8)
    ensures
        r == (if b {
            1u8
        } else {
            0u8
        }),
{
    if b {
        1
    } else {
        0
    }
}

/// Makes the segment register for a saved segment.
pub fn make_segment(sev_selector: SevSelector) -> (r: Segment)
    ensures
        r == segment_of(sev_selector),
{
    let flags: SegAccess = SegAccess::from_bits(sev_selector.attrib as u32);
    Segment {
        base: sev_selector.base,
        limit: sev_selector.limit,
        selector: sev_selector.selector,
        type_: flags.seg_type(),
        present: flag_byte(flags.present()),
        dpl: flags.priv_level(),
        db: flag_byte(flags.db_size_32()),
        s: flag_byte(flags.s_code_data()),
        l: flag_byte(flags.l_64bit()),
        g: flag_byte(flags.granularity()),
        avl: flag_byte(flags.available()),
        unusable: 0,
    }
}

/// A descriptor table register.
#[derive(Clone, Copy, Debug, PartialEq, Eq, Structural)]
pub struct DescriptorTable {
    pub base: u64,
    pub limit: u16,
}

/// The special registers that a saved guest state sets.
#[derive(Clone, Copy, Debug, PartialEq, Eq, Structural)]
pub struct SnpSpecialRegs {
    pub cs: Segment,
    pub ds: Segment,
    pub es: Segment,
    pub fs: Segment,
    pub gs: Segment,
    pub ss: Segment,
    pub tr: Segment,
    pub ldt: Segment,
    pub gdt: DescriptorTable,
    pub idt: DescriptorTable,
    pub cr0: u64,
    pub cr3: u64,
    pub cr4: u64,
    pub efer: u64,
}

/// The part of a saved guest state that sets the special registers.
#[derive(Clone, Copy, Debug, PartialEq, Eq, Structural)]
pub struct SevSpecialState {
    pub cs: SevSelector,
    pub ds: SevSelector,
    pub es: SevSelector,
    pub fs: SevSelector,
    pub gs: SevSelector,
    pub ss: SevSelector,
    pub tr: SevSelector,
    pub ldtr: SevSelector,
    pub gdtr: SevSelector,
    pub idtr: SevSelector,
    pub cr0: u64,
    pub cr3: u64,
    pub cr4: u64,
    pub efer: u64,
}

/// A descriptor table limit does not fit the register.
#[derive(Clone, Copy, Debug, PartialEq, Eq, Structural)]
pub struct LimitTooLarge {
    pub limit: u32,
}

/// The special registers of a saved guest state.
pub open spec fn special_regs_of(vmsa: SevSpecialState) -> Result<SnpSpecialRegs, LimitTooLarge> {
    if vmsa.idtr.limit > 0xffff {
        Err::<SnpSpecialRegs, LimitTooLarge>(LimitTooLarge { limit: vmsa.idtr.limit })
    } else if vmsa.gdtr.limit > 0xffff {
        Err(LimitTooLarge { limit: vmsa.gdtr.limit })
    } else {
        Ok(
            SnpSpecialRegs {
                cs: segment_of(vmsa.cs),
                ds: segment_of(vmsa.ds),
                es: segment_of(vmsa.es),
                fs: segment_of(vmsa.fs),
                gs: segment_of(vmsa.gs),
                ss: segment_of(vmsa.ss),
                tr: segment_of(vmsa.tr),
                ldt: segment_of(vmsa.ldtr),
                gdt: DescriptorTable { base: vmsa.gdtr.base, limit: vmsa.gdtr.limit as u16 },
                idt: DescriptorTable { base: vmsa.idtr.base, limit: vmsa.idtr.limit as u16 },
                cr0: vmsa.cr0,
                cr3: vmsa.cr3,
                cr4: vmsa.cr4,
                efer: vmsa.efer,
            },
        )
    }
}

/// The special registers of a saved guest state. Both descriptor table limits
/// must fit 16 bits; the interrupt table is looked at first.
pub fn sev_snp_special_regs(vmsa: &SevSpecialState) -> (r: Result<SnpSpecialRegs, LimitTooLarge>)
    ensures
        r == special_regs_of(*vmsa),
{
    if vmsa.idtr.limit > 0xffff {
        return Err(LimitTooLarge { limit: vmsa.idtr.limit });
    }
    if vmsa.gdtr.limit > 0xffff {
        return Err(LimitTooLarge { limit: vmsa.gdtr.limit });
    }
    Ok(
        SnpSpecialRegs {
            cs: make_segment(vmsa.cs),
            ds: make_segment(vmsa.ds),
            es: make_segment(vmsa.es),
            fs: make_segment(vmsa.fs),
            gs: make_segment(vmsa.gs),
            ss: make_segment(vmsa.ss),
            tr: make_segment(vmsa.tr),
            ldt: make_segment(vmsa.ldtr),
            gdt: DescriptorTable { base: vmsa.gdtr.base, limit: vmsa.gdtr.limit as u16 },
            idt: DescriptorTable { base: vmsa.idtr.base, limit: vmsa.idtr.limit as u16 },
            cr0: vmsa.cr0,
            cr3: vmsa.cr3,
            cr4: vmsa.cr4,
            efer: vmsa.efer,
        },
    )
}

/// Page type of a saved guest state, which the launch measurement adds itself.
pub const SNP_PAGE_TYPE_VMSA: u32 = 2;

/// One step of loading initial guest pages.
#[derive(Clone, Copy, Debug, PartialEq, Eq, Structural)]
pub enum ImportAction {
    /// Make a page private.
    SetPrivate { address: u64, size: u64 },
    /// Measure and encrypt a page in place.
    LaunchUpdate { uaddr: u64, size: u64, pfn: u64, page_type: u32 },
}

/// The steps that load a list of pages: each is made private, then measured.
pub open spec fn import_steps(
    page_type: u32,
    page_size: u32,
    pfns: Seq<u64>,
    uaddrs: Seq<u64>,
) -> Seq<ImportAction>
    decreases pfns.len(),
{
    if pfns.len() == 0 || page_type == SNP_PAGE_TYPE_VMSA {
        Seq::empty()
    } else {
        import_steps(page_type, page_size, pfns.drop_last(), uaddrs.drop_last()).push(
            ImportAction::SetPrivate { address: pfns.last() << 12, size: page_size as u64 },
        ).push(
            ImportAction::LaunchUpdate {
                uaddr: uaddrs.last(),
                size: page_size as u64,
                pfn: pfns.last(),
                page_type,
            },
        )
    }
}

/// Plans loading a list of pages. Pages that hold a saved guest state are left
/// out: the launch measurement adds those itself.
pub fn import_isolated_pages(page_type: u32, page_size: u32, pfns: &Vec<u64>, uaddrs: &Vec<u64>)
    -> (steps: Vec<ImportAction>)
    requires
        pfns@.len() > 0 ==> pfns@.len() == uaddrs@.len(),
    ensures
        steps@ == import_steps(page_type, page_size, pfns@, uaddrs@),
{
    let mut steps: Vec<ImportAction> = Vec::new();
    if pfns.len() == 0 || page_type == SNP_PAGE_TYPE_VMSA {
        return steps;
    }
    let mut i: usize = 0;
    while i < pfns.len()
        invariant
            i <= pfns@.len(),
            pfns@.len() == uaddrs@.len(),
            page_type != SNP_PAGE_TYPE_VMSA,
            steps@ == import_steps(
                page_type,
                page_size,
                pfns@.take(i as int),
                uaddrs@.take(i as int),
            ),
        decreases pfns@.len() - i,
    {
        proof {
            assert(pfns@.take(i + 1).drop_last() =~= pfns@.take(i as int));
            assert(uaddrs@.take(i + 1).drop_last() =~= uaddrs@.take(i as int));
        }
        steps.push(ImportAction::SetPrivate { address: pfns[i] << 12, size: page_size as u64 });
        steps.push(
            ImportAction::LaunchUpdate {
                uaddr: uaddrs[i],
                size: page_size as u64,
                pfn: pfns[i],
                page_type,
            },
        );
        i = i + 1;
    }
    assert(pfns@.take(i as int) =~= pfns@);
    assert(uaddrs@.take(i as int) =~= uaddrs@);
    steps
}

proof fn lemma_segment_bits(bits: u32)
    by (bit_vector)
    requires
        bits <= 0xffff,
    ensures
        (bits & 0xf) as u8 + 0x10 * flag(bits, 0x10) + 0x20 * (((bits >> 5) & 0x3) as u8) + 0x80
            * flag(bits, 0x80) + 0x100 * flag(bits, 0x100) + 0x200 * flag(bits, 0x200) + 0x400
            * flag(bits, 0x400) + 0x800 * flag(bits, 0x800) == bits % 0x1000,
        (bits & 0xf) as u8 <= 0xf,
        ((bits >> 5) & 0x3) as u8 <= 3,
{
}

/// A segment register holds the whole of a saved segment: its fields, put side
/// by side, are the saved access rights. It can be used.
pub proof fn segment_keeps_all_rights(saved: SevSelector)
    ensures
        ({
            let s = segment_of(saved);
            &&& s.base == saved.base && s.limit == saved.limit && s.selector == saved.selector
            &&& s.unusable == 0
            &&& s.type_ < 16 && s.dpl < 4
            &&& s.s < 2 && s.present < 2 && s.avl < 2 && s.l < 2 && s.db < 2 && s.g < 2
            &&& s.type_ + 0x10 * s.s + 0x20 * s.dpl + 0x80 * s.present + 0x100 * s.avl + 0x200 * s.l
                + 0x400 * s.db + 0x800 * s.g == saved.attrib % 0x1000
        }),
{
    lemma_segment_bits(saved.attrib as u32);
}

proof fn lemma_page_address(pfn: u64)
    by (bit_vector)
    requires
        pfn < 0x10_0000_0000_0000,
    ensures
        pfn << 12 == 4096 * pfn,
{
}

/// Every page that is not a saved guest state is made private at its own
/// address before it is measured, page after page, from where its bytes are.
pub proof fn pages_are_private_before_they_are_measured(
    page_type: u32,
    page_size: u32,
    pfns: Seq<u64>,
    uaddrs: Seq<u64>,
    i: int,
)
    requires
        pfns.len() == uaddrs.len(),
        0 <= i < pfns.len(),
        pfns[i] < 0x10_0000_0000_0000,
    ensures
        ({
            let steps = import_steps(page_type, page_size, pfns, uaddrs);
            if page_type == 2 {
                steps.len() == 0
            } else {
                &&& steps.len() == 2 * pfns.len()
                &&& steps[2 * i] == (ImportAction::SetPrivate {
                    address: (4096 * pfns[i]) as u64,
                    size: page_size as u64,
                })
                &&& steps[2 * i + 1] == (ImportAction::LaunchUpdate {
                    uaddr: uaddrs[i],
                    size: page_size as u64,
                    pfn: pfns[i],
                    page_type,
                })
            }
        }),
    decreases pfns.len(),
{
    lemma_page_address(pfns[i]);
    if i < pfns.len() - 1 {
        pages_are_private_before_they_are_measured(
            page_type,
            page_size,
            pfns.drop_last(),
            uaddrs.drop_last(),
            i,
        );
    } else if page_type != SNP_PAGE_TYPE_VMSA {
        lemma_import_len(page_type, page_size, pfns.drop_last(), uaddrs.drop_last());
    }
}

proof fn lemma_import_len(page_type: u32, page_size: u32, pfns: Seq<u64>, uaddrs: Seq<u64>)
    requires
        page_type != SNP_PAGE_TYPE_VMSA,
    ensures
        import_steps(page_type, page_size, pfns, uaddrs).len() == 2 * pfns.len(),
    decreases pfns.len(),
{
    if pfns.len() > 0 {
        lemma_import_len(page_type, page_size, pfns.drop_last(), uaddrs.drop_last());
    }
}

/// Each register comes from its own part of the saved state, and a state is
/// refused exactly if one of its descriptor tables is larger than 64 KiB; the
/// answer names a limit that is.
pub proof fn registers_come_from_their_part(vmsa: SevSpecialState)
    ensures
        match special_regs_of(vmsa) {
            Ok(r) => {
                &&& vmsa.idtr.limit < 0x1_0000 && vmsa.gdtr.limit < 0x1_0000
                &&& r.cs == segment_of(vmsa.cs) && r.ds == segment_of(vmsa.ds)
                &&& r.es == segment_of(vmsa.es) && r.fs == segment_of(vmsa.fs)
                &&& r.gs == segment_of(vmsa.gs) && r.ss == segment_of(vmsa.ss)
                &&& r.tr == segment_of(vmsa.tr) && r.ldt == segment_of(vmsa.ldtr)
                &&& r.gdt.base == vmsa.gdtr.base && r.gdt.limit == vmsa.gdtr.limit
                &&& r.idt.base == vmsa.idtr.base && r.idt.limit == vmsa.idtr.limit
                &&& r.cr0 == vmsa.cr0 && r.cr3 == vmsa.cr3 && r.cr4 == vmsa.cr4
                &&& r.efer == vmsa.efer
            },
            Err(e) => {
                &&& e.limit >= 0x1_0000
                &&& e.limit == vmsa.idtr.limit || e.limit == vmsa.gdtr.limit
                &&& vmsa.idtr.limit >= 0x1_0000 ==> e.limit == vmsa.idtr.limit
            },
        },
{
}

} // verus!
