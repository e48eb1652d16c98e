//! What a captured graph is declared to hold: one specification per node, in
//! launch order.

use vstd::prelude::*;

use crate::launch::{Dim3, Kernel};

verus! {

/// What launches a node.
#[derive(Debug, Clone, Copy, PartialEq, Eq, Structural)]
pub enum NodeRole {
    /// A kernel of this library's units.
    CustomKernel,
    /// A kernel that cuBLAS chose.
    CublasGemm,
}

/// How the parameters of a node are laid out.
#[derive(Debug, Clone, Copy, PartialEq, Eq, Structural)]
pub enum ParamLayout {
    /// A fixed number of slots.
    Fixed { slots: usize },
    /// A GEMM: the number of slots, and the slots of the three extents.
    Gemm { slots: usize, m: usize, n: usize, k: usize },
}

/// What a slot holds.
#[derive(Debug, Clone, Copy, PartialEq, Eq, Structural)]
pub enum PtrRole {
    /// The address of the argument's cell.
    Pointer,
}

/// The specification of one node.
#[derive(Debug)]
pub struct KernelSpec {
    pub role: NodeRole,
    pub layout: ParamLayout,
    /// The slots that are declared, and what each holds.
    pub ptr_slots: Vec<(usize, PtrRole)>,
    /// The kernel; `None` where it is only known after the capture.
    pub kernel: Option<Kernel>,
    pub grid: Dim3,
    pub block: Dim3,
    pub shared: u32,
}

/// The mathematical value of a specification.
#[verifier::ext_equal]
pub struct KernelSpecV {
    pub role: NodeRole,
    pub layout: ParamLayout,
    pub ptr_slots: Seq<(usize, PtrRole)>,
    pub kernel: Option<Kernel>,
    pub grid: Dim3,
    pub block: Dim3,
    pub shared: u32,
}

impl View for KernelSpec {
    type V = KernelSpecV;

    open spec fn view(&self) -> KernelSpecV {
        KernelSpecV {
            role: self.role,
            layout: self.layout,
            ptr_slots: self.ptr_slots@,
            kernel: self.kernel,
            grid: self.grid,
            block: self.block,
            shared: self.shared,
        }
    }
}

/// The first `n` slots, each holding the address of its cell.
pub open spec fn all_slots(n: nat) -> Seq<(usize, PtrRole)> {
    Seq::new(n, |i: int| (i as usize, PtrRole::Pointer))
}

/// The first `n` slots, each holding the address of its cell.
pub fn slots_upto(n: usize) -> (v: Vec<(usize, PtrRole)>)
    ensures
        v@ == all_slots(n as nat),
{
    let mut v: Vec<(usize, PtrRole)> = Vec::new();
    let mut i: usize = 0;
    while i < n
        invariant
            i <= n,
            v@ == all_slots(i as nat),
        decreases n - i,
    {
        v.push((i, PtrRole::Pointer));
        i = i + 1;
        proof {
            assert(v@ =~= all_slots(i as nat));
        }
    }
    v
}

} // verus!
