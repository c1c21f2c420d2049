use lizi_engine2d::colors::pack_rgb;
use lizi_engine2d::interaction::{ArrangeMode, ToolMode};
use lizi_engine2d::solver_kind::{PoissonBoundaryType, PoissonSolverType};

#[test]
fn pack_rgb_layout() {
    assert_eq!(pack_rgb(0x12, 0x34, 0x56), 0x0012_3456);
    assert_eq!(pack_rgb(255, 255, 255), 0x00FF_FFFF);
    assert_eq!(pack_rgb(0, 0, 0), 0);
    assert_eq!(pack_rgb(68, 1, 84), (68 << 16) | (1 << 8) | 84);
    let c = pack_rgb(200, 100, 50);
    assert_eq!(((c >> 16) & 0xff, (c >> 8) & 0xff, c & 0xff), (200, 100, 50));
}

#[test]
fn solver_types() {
    assert_eq!(
        PoissonSolverType::all(),
        [PoissonSolverType::FFTPeriodic, PoissonSolverType::Jacobi, PoissonSolverType::SOR]
    );
    assert_eq!(PoissonSolverType::FFTPeriodic.display_name(), "FFT 周期");
    assert_eq!(PoissonSolverType::Jacobi.display_name(), "Jacobi 迭代");
    assert_eq!(PoissonSolverType::SOR.display_name(), "SOR 迭代");
    assert_eq!(PoissonSolverType::FFTPeriodic.description(), "傅里叶变换求解，支持周期边界");
    assert_eq!(PoissonSolverType::Jacobi.description(), "迭代求解，支持 Dirichlet/Neumann 边界");
    assert_eq!(PoissonSolverType::SOR.description(), "超松弛迭代，收敛比 Jacobi 更快");
}

#[test]
fn boundary_types() {
    assert_eq!(
        PoissonBoundaryType::all(),
        [PoissonBoundaryType::Dirichlet, PoissonBoundaryType::Neumann]
    );
    assert_eq!(PoissonBoundaryType::Dirichlet.display_name(), "Dirichlet (V=0)");
    assert_eq!(PoissonBoundaryType::Neumann.display_name(), "Neumann (dE=0)");
}

#[test]
fn tool_modes() {
    assert_eq!(
        ToolMode::all(),
        [ToolMode::DragParticle, ToolMode::SpawnParticle, ToolMode::DeleteParticle, ToolMode::Inspect]
    );
    let names: Vec<&str> = ToolMode::all().iter().map(|t| t.display_name()).collect();
    assert_eq!(names, vec!["拖动", "生成", "删除", "查看"]);
    let icons: Vec<&str> = ToolMode::all().iter().map(|t| t.icon()).collect();
    assert_eq!(icons, vec!["✋", "✨", "❌", "🔍"]);
}

#[test]
fn arrange_modes() {
    assert_eq!(
        ArrangeMode::all(),
        [ArrangeMode::Stack, ArrangeMode::Horizontal, ArrangeMode::Vertical, ArrangeMode::Grid]
    );
    let names: Vec<&str> = ArrangeMode::all().iter().map(|t| t.display_name()).collect();
    assert_eq!(names, vec!["堆叠", "水平排列", "垂直排列", "网格排列"]);
}
