use vstd::prelude::*;

verus! {

/// Which Poisson solver computes the potential from the charge density.
#[derive(Debug, Clone, Copy, PartialEq, Eq, Structural)]
pub enum PoissonSolverType {
    /// Periodic solver through the fast Fourier transform (the default, and the fastest).
    FFTPeriodic,
    /// Jacobi iteration (supports Dirichlet boundaries).
    Jacobi,
    /// Successive over-relaxation (supports Dirichlet boundaries, converges faster).
    SOR,
}

impl PoissonSolverType {
    /// The label shown for this solver.
    pub open spec fn label(self) -> Seq<char> {
        match self {
            PoissonSolverType::FFTPeriodic => "FFT 周期"@,
            PoissonSolverType::Jacobi => "Jacobi 迭代"@,
            PoissonSolverType::SOR => "SOR 迭代"@,
        }
    }

    /// The one-line description shown for this solver.
    pub open spec fn blurb(self) -> Seq<char> {
        match self {
            PoissonSolverType::FFTPeriodic => "傅里叶变换求解，支持周期边界"@,
            PoissonSolverType::Jacobi => "迭代求解，支持 Dirichlet/Neumann 边界"@,
            PoissonSolverType::SOR => "超松弛迭代，收敛比 Jacobi 更快"@,
        }
    }

    /// Every solver, in menu order.
    pub fn all() -> (kinds: [PoissonSolverType; 3])
        ensures
            kinds@ == seq![
                PoissonSolverType::FFTPeriodic,
                PoissonSolverType::Jacobi,
                PoissonSolverType::SOR,
            ],
    {
        let kinds = [PoissonSolverType::FFTPeriodic, PoissonSolverType::Jacobi, PoissonSolverType::SOR];
        assert(kinds@ =~= seq![
            PoissonSolverType::FFTPeriodic,
            PoissonSolverType::Jacobi,
            PoissonSolverType::SOR,
        ]);
        kinds
    }

    pub fn display_name(&self) -> (name: &'static str)
        ensures
            name@ == self.label(),
            name@ == match *self {
                PoissonSolverType::FFTPeriodic => "FFT 周期"@,
                PoissonSolverType::Jacobi => "Jacobi 迭代"@,
                PoissonSolverType::SOR => "SOR 迭代"@,
            },
    {
        match self {
            PoissonSolverType::FFTPeriodic => "FFT 周期",
            PoissonSolverType::Jacobi => "Jacobi 迭代",
            PoissonSolverType::SOR => "SOR 迭代",
        }
    }

    pub fn description(&self) -> (text: &'static str)
        ensures
            text@ == self.blurb(),
            text@ == match *self {
                PoissonSolverType::FFTPeriodic => "傅里叶变换求解，支持周期边界"@,
                PoissonSolverType::Jacobi => "迭代求解，支持 Dirichlet/Neumann 边界"@,
                PoissonSolverType::SOR => "超松弛迭代，收敛比 Jacobi 更快"@,
            },
    {
        match self {
            PoissonSolverType::FFTPeriodic => "傅里叶变换求解，支持周期边界",
            PoissonSolverType::Jacobi => "迭代求解，支持 Dirichlet/Neumann 边界",
            PoissonSolverType::SOR => "超松弛迭代，收敛比 Jacobi 更快",
        }
    }
}

/// The boundary condition of the iterative Poisson solvers.
#[derive(Debug, Clone, Copy, PartialEq, Eq, Structural)]
pub enum PoissonBoundaryType {
    /// Dirichlet boundary: V = 0 (a grounded conductor).
    Dirichlet,
    /// Neumann boundary: dV/dn = 0 (no field across the boundary).
    Neumann,
}

impl PoissonBoundaryType {
    /// The label shown for this boundary condition.
    pub open spec fn label(self) -> Seq<char> {
        match self {
            PoissonBoundaryType::Dirichlet => "Dirichlet (V=0)"@,
            PoissonBoundaryType::Neumann => "Neumann (dE=0)"@,
        }
    }

    /// Every boundary condition, in menu order.
    pub fn all() -> (kinds: [PoissonBoundaryType; 2])
        ensures
            kinds@ == seq![PoissonBoundaryType::Dirichlet, PoissonBoundaryType::Neumann],
    {
        let kinds = [PoissonBoundaryType::Dirichlet, PoissonBoundaryType::Neumann];
        assert(kinds@ =~= seq![PoissonBoundaryType::Dirichlet, PoissonBoundaryType::Neumann]);
        kinds
    }

    pub fn display_name(&self) -> (name: &'static str)
        ensures
            name@ == self.label(),
            name@ == match *self {
                PoissonBoundaryType::Dirichlet => "Dirichlet (V=0)"@,
                PoissonBoundaryType::Neumann => "Neumann (dE=0)"@,
            },
    {
        match self {
            PoissonBoundaryType::Dirichlet => "Dirichlet (V=0)",
            PoissonBoundaryType::Neumann => "Neumann (dE=0)",
        }
    }
}

} // verus!
