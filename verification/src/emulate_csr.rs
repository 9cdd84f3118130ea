use vstd::prelude::*;
use crate::cpu::{
    CSR_TIME_ADDRESS, CSR_HSTATUS_ADDRESS, CSR_HEDELEG_ADDRESS, CSR_HIDELEG_ADDRESS,
    CSR_HIE_ADDRESS, CSR_HCOUNTEREN_ADDRESS, CSR_HGEIE_ADDRESS, CSR_HTVAL_ADDRESS,
    CSR_HIP_ADDRESS, CSR_HVIP_ADDRESS, CSR_HTINST_ADDRESS, CSR_HGEIP_ADDRESS,
    CSR_HENVCFG_ADDRESS, CSR_HGATP_ADDRESS,
};

verus! {

/// The hypervisor CSRs that a guest hypervisor sees, held in memory.
#[derive(Clone, Copy)]
pub struct HypervisorCsr {
    pub hstatus: u64,
    pub hedeleg: u64,
    pub hideleg: u64,
    pub hie: u64,
    pub hcounteren: u64,
    pub hgeie: u64,
    pub htval: u64,
    pub hip: u64,
    pub hvip: u64,
    pub htinst: u64,
    pub hgeip: u64,
    pub henvcfg: u64,
    pub hgatp: u64,
}

impl Default for HypervisorCsr {
    /// All CSRs zero, as `new` gives them.
    fn default() -> (r: Self)
        ensures
            r == Self::zeroed(),
    {
        Self::new()
    }
}

/// The CSR numbers that are emulated (all of them readable).
pub open spec fn is_emulated_csr(a: usize) -> bool {
    a == CSR_TIME_ADDRESS || is_writable_csr(a)
}

/// The emulated CSR numbers that can also be written (all but `time`).
pub open spec fn is_writable_csr(a: usize) -> bool {
    ||| a == CSR_HSTATUS_ADDRESS
    ||| a == CSR_HEDELEG_ADDRESS
    ||| a == CSR_HIDELEG_ADDRESS
    ||| a == CSR_HIE_ADDRESS
    ||| a == CSR_HCOUNTEREN_ADDRESS
    ||| a == CSR_HGEIE_ADDRESS
    ||| a == CSR_HTVAL_ADDRESS
    ||| a == CSR_HIP_ADDRESS
    ||| a == CSR_HVIP_ADDRESS
    ||| a == CSR_HTINST_ADDRESS
    ||| a == CSR_HGEIP_ADDRESS
    ||| a == CSR_HENVCFG_ADDRESS
    ||| a == CSR_HGATP_ADDRESS
}

impl HypervisorCsr {
    /// Value of CSR `a`; `time` is the current value of the `time` counter.
    pub open spec fn value_of(self, a: usize, time: u64) -> u64 {
        if a == CSR_TIME_ADDRESS {
            time
        } else if a == CSR_HSTATUS_ADDRESS {
            self.hstatus
        } else if a == CSR_HEDELEG_ADDRESS {
            self.hedeleg
        } else if a == CSR_HIDELEG_ADDRESS {
            self.hideleg
        } else if a == CSR_HIE_ADDRESS {
            self.hie
        } else if a == CSR_HCOUNTEREN_ADDRESS {
            self.hcounteren
        } else if a == CSR_HGEIE_ADDRESS {
            self.hgeie
        } else if a == CSR_HTVAL_ADDRESS {
            self.htval
        } else if a == CSR_HIP_ADDRESS {
            self.hip
        } else if a == CSR_HVIP_ADDRESS {
            self.hvip
        } else if a == CSR_HTINST_ADDRESS {
            self.htinst
        } else if a == CSR_HGEIP_ADDRESS {
            self.hgeip
        } else if a == CSR_HENVCFG_ADDRESS {
            self.henvcfg
        } else {
            self.hgatp
        }
    }

    /// The register file after writing `v` into CSR `a`.
    pub open spec fn written(self, a: usize, v: u64) -> HypervisorCsr {
        if a == CSR_HSTATUS_ADDRESS {
            HypervisorCsr { hstatus: v, ..self }
        } else if a == CSR_HEDELEG_ADDRESS {
            HypervisorCsr { hedeleg: v, ..self }
        } else if a == CSR_HIDELEG_ADDRESS {
            HypervisorCsr { hideleg: v, ..self }
        } else if a == CSR_HIE_ADDRESS {
            HypervisorCsr { hie: v, ..self }
        } else if a == CSR_HCOUNTEREN_ADDRESS {
            HypervisorCsr { hcounteren: v, ..self }
        } else if a == CSR_HGEIE_ADDRESS {
            HypervisorCsr { hgeie: v, ..self }
        } else if a == CSR_HTVAL_ADDRESS {
            HypervisorCsr { htval: v, ..self }
        } else if a == CSR_HIP_ADDRESS {
            HypervisorCsr { hip: v, ..self }
        } else if a == CSR_HVIP_ADDRESS {
            HypervisorCsr { hvip: v, ..self }
        } else if a == CSR_HTINST_ADDRESS {
            HypervisorCsr { htinst: v, ..self }
        } else if a == CSR_HGEIP_ADDRESS {
            HypervisorCsr { hgeip: v, ..self }
        } else if a == CSR_HENVCFG_ADDRESS {
            HypervisorCsr { henvcfg: v, ..self }
        } else if a == CSR_HGATP_ADDRESS {
            HypervisorCsr { hgatp: v, ..self }
        } else {
            self
        }
    }

    /// All registers zero.
    pub open spec fn zeroed() -> HypervisorCsr {
        HypervisorCsr {
            hstatus: 0,
            hedeleg: 0,
            hideleg: 0,
            hie: 0,
            hcounteren: 0,
            hgeie: 0,
            htval: 0,
            hip: 0,
            hvip: 0,
            htinst: 0,
            hgeip: 0,
            henvcfg: 0,
            hgatp: 0,
        }
    }

    pub fn new() -> (r: Self)
        ensures
            r == Self::zeroed(),
    {
        HypervisorCsr {
            hstatus: 0,
            hedeleg: 0,
            hideleg: 0,
            hie: 0,
            hcounteren: 0,
            hgeie: 0,
            htval: 0,
            hip: 0,
            hvip: 0,
            htinst: 0,
            hgeip: 0,
            henvcfg: 0,
            hgatp: 0,
        }
    }

    /// Reads CSR `csr_address`; `time` is the current `time` counter, which
    /// the `time` CSR passes through.
    pub fn get_csr(&self, csr_address: usize, time: u64) -> (r: u64)
        requires
            is_emulated_csr(csr_address),
        ensures
            r == self.value_of(csr_address, time),
    {
        if csr_address == CSR_TIME_ADDRESS {
            time
        } else if csr_address == CSR_HSTATUS_ADDRESS {
            self.hstatus
        } else if csr_address == CSR_HEDELEG_ADDRESS {
            self.hedeleg
        } else if csr_address == CSR_HIDELEG_ADDRESS {
            self.hideleg
        } else if csr_address == CSR_HIE_ADDRESS {
            self.hie
        } else if csr_address == CSR_HCOUNTEREN_ADDRESS {
            self.hcounteren
        } else if csr_address == CSR_HGEIE_ADDRESS {
            self.hgeie
        } else if csr_address == CSR_HTVAL_ADDRESS {
            self.htval
        } else if csr_address == CSR_HIP_ADDRESS {
            self.hip
        } else if csr_address == CSR_HVIP_ADDRESS {
            self.hvip
        } else if csr_address == CSR_HTINST_ADDRESS {
            self.htinst
        } else if csr_address == CSR_HGEIP_ADDRESS {
            self.hgeip
        } else if csr_address == CSR_HENVCFG_ADDRESS {
            self.henvcfg
        } else {
            self.hgatp
        }
    }

    /// Writes `value` into CSR `csr_address`; `time` is read-only.
    pub fn set_csr(&mut self, csr_address: usize, value: u64)
        requires
            is_writable_csr(csr_address),
        ensures
            *final(self) == old(self).written(csr_address, value),
    {
        if csr_address == CSR_HSTATUS_ADDRESS {
            self.hstatus = value;
        } else if csr_address == CSR_HEDELEG_ADDRESS {
            self.hedeleg = value;
        } else if csr_address == CSR_HIDELEG_ADDRESS {
            self.hideleg = value;
        } else if csr_address == CSR_HIE_ADDRESS {
            self.hie = value;
        } else if csr_address == CSR_HCOUNTEREN_ADDRESS {
            self.hcounteren = value;
        } else if csr_address == CSR_HGEIE_ADDRESS {
            self.hgeie = value;
        } else if csr_address == CSR_HTVAL_ADDRESS {
            self.htval = value;
        } else if csr_address == CSR_HIP_ADDRESS {
            self.hip = value;
        } else if csr_address == CSR_HVIP_ADDRESS {
            self.hvip = value;
        } else if csr_address == CSR_HTINST_ADDRESS {
            self.htinst = value;
        } else if csr_address == CSR_HGEIP_ADDRESS {
            self.hgeip = value;
        } else if csr_address == CSR_HENVCFG_ADDRESS {
            self.henvcfg = value;
        } else {
            self.hgatp = value;
        }
    }
}

/// A guest hypervisor: its virtual hypervisor CSRs and the VM it runs.
#[derive(Clone, Copy)]
pub struct HypervisorContext {
    pub csr: HypervisorCsr,
    pub vmid: usize,
}

impl HypervisorContext {
    pub fn new() -> (r: Self)
        ensures
            r.csr == HypervisorCsr::zeroed(),
            r.vmid == 0,
    {
        HypervisorContext { csr: HypervisorCsr::new(), vmid: 0 }
    }
}

/// Emulates a CSR read-write by a guest hypervisor: register `rd` receives
/// the old value and the CSR takes `write_value`. Returns whether the
/// guest's G-stage table changed (a write to `hgatp`), after which the
/// shadow table has to be rebuilt.
pub fn emulate_csr(
    hypervisor: &mut HypervisorContext,
    csr_address: usize,
    rd: usize,
    write_value: u64,
    registers: &mut [u64],
    time: u64,
) -> (remap: bool)
    requires
        is_writable_csr(csr_address),
        rd < old(registers)@.len(),
    ensures
        final(registers)@ == old(registers)@.update(
            rd as int,
            old(hypervisor).csr.value_of(csr_address, time),
        ),
        final(hypervisor).csr == old(hypervisor).csr.written(csr_address, write_value),
        final(hypervisor).vmid == old(hypervisor).vmid,
        remap == (csr_address == CSR_HGATP_ADDRESS),
{
    let old_value = hypervisor.csr.get_csr(csr_address, time);
    registers[rd] = old_value;
    hypervisor.csr.set_csr(csr_address, write_value);
    csr_address == CSR_HGATP_ADDRESS
}

/// Snapshot of the host's hypervisor CSRs, taken before switching to a
/// guest hypervisor's values.
pub fn store_l0_hypervisor_context(host: &mut HypervisorCsr, current: HypervisorCsr)
    ensures
        *final(host) == current,
{
    *host = current;
}

/// The CSR writes, in order, that install `csr`: every register but
/// `hgeip`, which is read-only to the hypervisor.
pub open spec fn context_writes(csr: HypervisorCsr) -> Seq<(usize, u64)> {
    seq![
        (CSR_HSTATUS_ADDRESS, csr.hstatus),
        (CSR_HEDELEG_ADDRESS, csr.hedeleg),
        (CSR_HIDELEG_ADDRESS, csr.hideleg),
        (CSR_HIE_ADDRESS, csr.hie),
        (CSR_HCOUNTEREN_ADDRESS, csr.hcounteren),
        (CSR_HGEIE_ADDRESS, csr.hgeie),
        (CSR_HTVAL_ADDRESS, csr.htval),
        (CSR_HIP_ADDRESS, csr.hip),
        (CSR_HVIP_ADDRESS, csr.hvip),
        (CSR_HTINST_ADDRESS, csr.htinst),
        (CSR_HENVCFG_ADDRESS, csr.henvcfg),
        (CSR_HGATP_ADDRESS, csr.hgatp),
    ]
}

/// The register file after the writes `ws`, in order.
pub open spec fn apply_writes(h: HypervisorCsr, ws: Seq<(usize, u64)>) -> HypervisorCsr
    decreases ws.len(),
{
    if ws.len() == 0 {
        h
    } else {
        apply_writes(h.written(ws[0].0, ws[0].1), ws.drop_first())
    }
}

/// Installing a context gives back that context: every register but
/// `hgeip` then holds the context's value, `hgeip` keeps its own.
pub proof fn law_load_context_installs(h: HypervisorCsr, csr: HypervisorCsr)
    ensures
        apply_writes(h, context_writes(csr)) == (HypervisorCsr { hgeip: h.hgeip, ..csr }),
{
    reveal_with_fuel(apply_writes, 13);
    let ws = context_writes(csr);
    assert(ws.drop_first().drop_first().drop_first().drop_first().drop_first().drop_first().drop_first().drop_first().drop_first().drop_first().drop_first().drop_first().len() == 0);
}

/// The CSR writes, in order, that install `csr` into the hardware.
pub fn load_hypervisor_context(csr: HypervisorCsr) -> (writes: Vec<(usize, u64)>)
    ensures
        writes@ == context_writes(csr),
{
    let mut w: Vec<(usize, u64)> = Vec::new();
    w.push((CSR_HSTATUS_ADDRESS, csr.hstatus));
    w.push((CSR_HEDELEG_ADDRESS, csr.hedeleg));
    w.push((CSR_HIDELEG_ADDRESS, csr.hideleg));
    w.push((CSR_HIE_ADDRESS, csr.hie));
    w.push((CSR_HCOUNTEREN_ADDRESS, csr.hcounteren));
    w.push((CSR_HGEIE_ADDRESS, csr.hgeie));
    w.push((CSR_HTVAL_ADDRESS, csr.htval));
    w.push((CSR_HIP_ADDRESS, csr.hip));
    w.push((CSR_HVIP_ADDRESS, csr.hvip));
    w.push((CSR_HTINST_ADDRESS, csr.htinst));
    w.push((CSR_HENVCFG_ADDRESS, csr.henvcfg));
    w.push((CSR_HGATP_ADDRESS, csr.hgatp));
    assert(w@ =~= seq![
        (CSR_HSTATUS_ADDRESS, csr.hstatus),
        (CSR_HEDELEG_ADDRESS, csr.hedeleg),
        (CSR_HIDELEG_ADDRESS, csr.hideleg),
        (CSR_HIE_ADDRESS, csr.hie),
        (CSR_HCOUNTEREN_ADDRESS, csr.hcounteren),
        (CSR_HGEIE_ADDRESS, csr.hgeie),
        (CSR_HTVAL_ADDRESS, csr.htval),
        (CSR_HIP_ADDRESS, csr.hip),
        (CSR_HVIP_ADDRESS, csr.hvip),
        (CSR_HTINST_ADDRESS, csr.htinst),
        (CSR_HENVCFG_ADDRESS, csr.henvcfg),
        (CSR_HGATP_ADDRESS, csr.hgatp),
    ]);
    w
}

} // verus!
