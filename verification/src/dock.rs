//! The dock layout: where each panel opens.
//!
//! One dockspace over the main viewport, with the central node left **empty**: the
//! 3D scene is rendered to the whole surface before the UI draws, so the empty node
//! is a hole through the UI onto the simulation.
use vstd::prelude::*;

verus! {

/// The docked panels.
#[derive(Clone, Copy, Debug, PartialEq, Eq, Structural)]
pub enum Panel {
    Toolbar,
    Layers,
    Properties,
    Legend,
    Plots,
    Diagnostics,
}

impl Panel {
    /// The identity that stays the same whatever the window is called.
    pub fn stable_id(self) -> (s: &'static str)
        ensures
            s@ == (match self {
                Panel::Toolbar => "toolbar"@,
                Panel::Layers => "layers"@,
                Panel::Properties => "properties"@,
                Panel::Legend => "legend"@,
                Panel::Plots => "plots"@,
                Panel::Diagnostics => "diagnostics"@,
            }),
    {
        match self {
            Panel::Toolbar => "toolbar",
            Panel::Layers => "layers",
            Panel::Properties => "properties",
            Panel::Legend => "legend",
            Panel::Plots => "plots",
            Panel::Diagnostics => "diagnostics",
        }
    }

    pub fn title(self) -> (s: &'static str)
        ensures
            s@ == (match self {
                Panel::Toolbar => "Simulation"@,
                Panel::Layers => "Layers"@,
                Panel::Properties => "Properties"@,
                Panel::Legend => "Legend"@,
                Panel::Plots => "Plots"@,
                Panel::Diagnostics => "Diagnostics"@,
            }),
    {
        match self {
            Panel::Toolbar => "Simulation",
            Panel::Layers => "Layers",
            Panel::Properties => "Properties",
            Panel::Legend => "Legend",
            Panel::Plots => "Plots",
            Panel::Diagnostics => "Diagnostics",
        }
    }
}

/// On which side of the node the first child of a split goes.
#[derive(Clone, Copy, Debug, PartialEq, Eq, Structural)]
pub enum DockSplit {
    Up,
    Left,
    Right,
    Down,
}

/// A tree of splits with tabbed panels at its leaves.
#[derive(Debug)]
pub enum DockLayout {
    Tabs(Vec<Panel>),
    Split {
        side: DockSplit,
        /// How much of the node the first child takes, in hundredths.
        percent: u32,
        first: Box<DockLayout>,
        second: Box<DockLayout>,
    },
}

/// A layout as a mathematical tree.
pub enum DockShape {
    Tabs(Seq<Panel>),
    Split(DockSplit, u32, Box<DockShape>, Box<DockShape>),
}

/// A leaf with one panel.
pub open spec fn single(panel: Panel) -> DockShape {
    DockShape::Tabs(seq![panel])
}

/// A split node.
pub open spec fn split_shape(
    side: DockSplit,
    percent: u32,
    first: DockShape,
    second: DockShape,
) -> DockShape {
    DockShape::Split(side, percent, Box::new(first), Box::new(second))
}

/// Toolbar across the top, layers left, properties over the legend on the right,
/// plots along the bottom, and the remaining leaf empty.
pub open spec fn standard_shape() -> DockShape {
    split_shape(
        DockSplit::Up,
        20,
        single(Panel::Toolbar),
        split_shape(
            DockSplit::Left,
            17,
            single(Panel::Layers),
            split_shape(
                DockSplit::Right,
                26,
                split_shape(
                    DockSplit::Down,
                    42,
                    single(Panel::Legend),
                    DockShape::Tabs(seq![Panel::Properties, Panel::Diagnostics]),
                ),
                split_shape(
                    DockSplit::Down,
                    32,
                    single(Panel::Plots),
                    DockShape::Tabs(Seq::empty()),
                ),
            ),
        ),
    )
}

impl DockLayout {
    /// The layout as a mathematical tree.
    pub open spec fn shape(self) -> DockShape
        decreases self,
    {
        match self {
            DockLayout::Tabs(keys) => DockShape::Tabs(keys@),
            DockLayout::Split { side, percent, first, second } => split_shape(
                side,
                percent,
                first.shape(),
                second.shape(),
            ),
        }
    }

    /// The panels at the leaves, from the first child on.
    pub open spec fn panels(self) -> Seq<Panel>
        decreases self,
    {
        match self {
            DockLayout::Tabs(keys) => keys@,
            DockLayout::Split { side, percent, first, second } => first.panels()
                + second.panels(),
        }
    }

    /// The number of leaves that hold no panel.
    pub open spec fn holes(self) -> nat
        decreases self,
    {
        match self {
            DockLayout::Tabs(keys) => if keys@.len() == 0 {
                1
            } else {
                0
            },
            DockLayout::Split { side, percent, first, second } => first.holes() + second.holes(),
        }
    }

    /// Every split gives each of its children some room.
    pub open spec fn proportionate(self) -> bool
        decreases self,
    {
        match self {
            DockLayout::Tabs(_) => true,
            DockLayout::Split { side, percent, first, second } => {
                &&& 0 < percent < 100
                &&& first.proportionate()
                &&& second.proportionate()
            },
        }
    }

    fn split(side: DockSplit, percent: u32, first: DockLayout, second: DockLayout) -> (l: Self)
        requires
            0 < percent < 100,
            first.proportionate(),
            second.proportionate(),
        ensures
            l == (DockLayout::Split {
                side,
                percent,
                first: Box::new(first),
                second: Box::new(second),
            }),
            l.shape() == split_shape(side, percent, first.shape(), second.shape()),
            l.panels() == first.panels() + second.panels(),
            l.holes() == first.holes() + second.holes(),
            l.proportionate(),
    {
        DockLayout::Split { side, percent, first: Box::new(first), second: Box::new(second) }
    }

    fn tab(panel: Panel) -> (l: Self)
        ensures
            l.shape() == single(panel),
            l.panels() == seq![panel],
            l.holes() == 0,
            l.proportionate(),
    {
        let mut keys: Vec<Panel> = Vec::new();
        keys.push(panel);
        assert(keys@ =~= seq![panel]);
        DockLayout::Tabs(keys)
    }

    /// Toolbar across the top, layers left, properties over the legend on the right,
    /// plots along the bottom, and the remaining leaf deliberately empty: that leaf
    /// is the central node, the window onto the simulation.
    pub fn standard() -> (l: Self)
        ensures
            l.shape() == standard_shape(),
            l.proportionate(),
            l.holes() == 1,
            l.panels() == seq![
                Panel::Toolbar,
                Panel::Layers,
                Panel::Legend,
                Panel::Properties,
                Panel::Diagnostics,
                Panel::Plots,
            ],
    {
        let mut inspectors: Vec<Panel> = Vec::new();
        inspectors.push(Panel::Properties);
        inspectors.push(Panel::Diagnostics);
        assert(inspectors@ =~= seq![Panel::Properties, Panel::Diagnostics]);
        let right: DockLayout = Self::split(
            DockSplit::Down,
            42,
            Self::tab(Panel::Legend),
            DockLayout::Tabs(inspectors),
        );
        let hole: Vec<Panel> = Vec::new();
        assert(hole@ =~= Seq::empty());
        let centre: DockLayout = Self::split(
            DockSplit::Down,
            32,
            Self::tab(Panel::Plots),
            DockLayout::Tabs(hole),
        );
        let l: DockLayout = Self::split(
            DockSplit::Up,
            20,
            Self::tab(Panel::Toolbar),
            Self::split(
                DockSplit::Left,
                17,
                Self::tab(Panel::Layers),
                Self::split(DockSplit::Right, 26, right, centre),
            ),
        );
        assert(l.panels() =~= seq![
            Panel::Toolbar,
            Panel::Layers,
            Panel::Legend,
            Panel::Properties,
            Panel::Diagnostics,
            Panel::Plots,
        ]);
        l
    }
}

/// The standard layout names every panel exactly once and leaves one hole for the
/// view: any layout with its panels does.
pub proof fn every_panel_has_one_place(l: DockLayout, p: Panel)
    requires
        l.panels() == seq![
            Panel::Toolbar,
            Panel::Layers,
            Panel::Legend,
            Panel::Properties,
            Panel::Diagnostics,
            Panel::Plots,
        ],
    ensures
        l.panels().contains(p),
        l.panels().no_duplicates(),
{
    let s = l.panels();
    assert(s[0] == Panel::Toolbar && s[1] == Panel::Layers && s[2] == Panel::Legend);
    assert(s[3] == Panel::Properties && s[4] == Panel::Diagnostics && s[5] == Panel::Plots);
}

} // verus!
