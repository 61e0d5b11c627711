use vstd::prelude::*;
use crate::cell::Cell;
use crate::universe::Universe;

verus! {

/// The padding of a configuration that sets none.
pub const DEFAULT_PADDING: u32 = 0;

/// The edge length of a cell, in pixels, of a configuration that sets none.
pub const DEFAULT_CELL_SIZE: u32 = 10;

/// The input data from which the universe will be constructed.
#[derive(Clone, Debug)]
pub enum UniverseInput {
    Random,
    RleString(String),
}

/// A universe input as a plain value.
pub enum InputView {
    Random,
    RleString(Seq<char>),
}

impl View for UniverseInput {
    type V = InputView;

    open spec fn view(&self) -> InputView {
        match self {
            UniverseInput::Random => InputView::Random,
            UniverseInput::RleString(text) => InputView::RleString(text@),
        }
    }
}

/// What happens at the edge of the grid. Under `Wrap` a neighbour beyond an edge is
/// the cell on the opposite side; under `Truncate` there is no cell beyond an edge.
#[derive(Clone, Copy, Debug, PartialEq, Eq, Structural)]
pub enum EdgeRule {
    Wrap,
    Truncate,
}

/// What a universe is built from: its input, its size and edge rule, and the
/// styling that is handed on to the renderer.
pub struct UniverseConfig {
    // construction parameters
    input: UniverseInput,
    padding: u32,
    cell_size: u32,
    override_size: Option<(u32, u32)>,
    // behaviour
    edge_rule: EdgeRule,
    // styling
    pub lines_enabled: bool,
    pub line_width: u32,
    pub border_width: u32,
    pub allow_overflow: bool,
    line_color: String,
    cell_alive_color: String,
    cell_dead_color: String,
}

/// A configuration as a plain value.
pub struct ConfigView {
    pub input: InputView,
    pub padding: u32,
    pub cell_size: u32,
    pub override_size: Option<(u32, u32)>,
    pub edge_rule: EdgeRule,
    pub lines_enabled: bool,
    pub line_width: u32,
    pub border_width: u32,
    pub allow_overflow: bool,
    pub line_color: Seq<char>,
    pub cell_alive_color: Seq<char>,
    pub cell_dead_color: Seq<char>,
}

impl View for UniverseConfig {
    type V = ConfigView;

    closed spec fn view(&self) -> ConfigView {
        ConfigView {
            input: self.input@,
            padding: self.padding,
            cell_size: self.cell_size,
            override_size: self.override_size,
            edge_rule: self.edge_rule,
            lines_enabled: self.lines_enabled,
            line_width: self.line_width,
            border_width: self.border_width,
            allow_overflow: self.allow_overflow,
            line_color: self.line_color@,
            cell_alive_color: self.cell_alive_color@,
            cell_dead_color: self.cell_dead_color@,
        }
    }
}

/// The configuration that `UniverseConfig::new` makes.
pub open spec fn default_config() -> ConfigView {
    ConfigView {
        input: InputView::RleString("this"@),
        padding: DEFAULT_PADDING,
        cell_size: DEFAULT_CELL_SIZE,
        override_size: None,
        edge_rule: EdgeRule::Wrap,
        lines_enabled: true,
        line_width: 2,
        border_width: 4,
        allow_overflow: false,
        line_color: "white"@,
        cell_alive_color: "black"@,
        cell_dead_color: "white"@,
    }
}

impl UniverseConfig {
    /// The input that the universe is filled from.
    pub fn get_input(&self) -> (input: UniverseInput)
        ensures
            input@ == self@.input,
    {
        match &self.input {
            UniverseInput::Random => UniverseInput::Random,
            UniverseInput::RleString(text) => UniverseInput::RleString(text.clone()),
        }
    }

    /// The cells added on every side of the grid.
    pub fn get_padding(&self) -> (padding: u32)
        ensures
            padding == self@.padding,
    {
        self.padding
    }

    /// The edge length of a cell, in pixels.
    pub fn get_cell_size(&self) -> (cell_size: u32)
        ensures
            cell_size == self@.cell_size,
    {
        self.cell_size
    }

    /// The explicit width and height, if set.
    pub fn get_override_size(&self) -> (size: Option<(u32, u32)>)
        ensures
            size == self@.override_size,
    {
        self.override_size
    }

    /// What happens at the edge of the grid.
    pub fn get_edge_rule(&self) -> (rule: EdgeRule)
        ensures
            rule == self@.edge_rule,
    {
        self.edge_rule
    }

    /// Whether lines are drawn between cells.
    pub fn get_lines_enabled(&self) -> (enabled: bool)
        ensures
            enabled == self@.lines_enabled,
    {
        self.lines_enabled
    }

    /// The width of the lines between cells, in pixels.
    pub fn get_line_width(&self) -> (width: u32)
        ensures
            width == self@.line_width,
    {
        self.line_width
    }

    /// The width of the border around the grid, in pixels.
    pub fn get_border_width(&self) -> (width: u32)
        ensures
            width == self@.border_width,
    {
        self.border_width
    }

    /// Whether only whole cells are shown at the edge of the canvas.
    pub fn get_allow_overflow(&self) -> (allowed: bool)
        ensures
            allowed == self@.allow_overflow,
    {
        self.allow_overflow
    }

    /// The color of the lines between cells.
    pub fn get_line_color(&self) -> (color: String)
        ensures
            color@ == self@.line_color,
    {
        self.line_color.clone()
    }

    /// The color of living cells.
    pub fn get_cell_alive_color(&self) -> (color: String)
        ensures
            color@ == self@.cell_alive_color,
    {
        self.cell_alive_color.clone()
    }

    /// The color of dead cells.
    pub fn get_cell_dead_color(&self) -> (color: String)
        ensures
            color@ == self@.cell_dead_color,
    {
        self.cell_dead_color.clone()
    }

    /// Create a new configuration with **default** parameters.
    pub fn new() -> (config: Self)
        ensures
            config@ == default_config(),
    {
        Self {
            input: UniverseInput::RleString("this".to_owned()),
            padding: DEFAULT_PADDING,
            cell_size: DEFAULT_CELL_SIZE,
            override_size: None,
            edge_rule: EdgeRule::Wrap,
            lines_enabled: true,
            line_width: 2,
            border_width: 4,
            allow_overflow: false,
            line_color: "white".to_owned(),
            cell_alive_color: "black".to_owned(),
            cell_dead_color: "white".to_owned(),
        }
    }

    /// Create a universe grid populated at random.
    pub fn set_random_input(self) -> (config: Self)
        ensures
            config@ == (ConfigView { input: InputView::Random, ..self@ }),
    {
        let mut config = self;
        config.input = UniverseInput::Random;
        config
    }

    /// Create a universe grid populated from a pattern text.
    pub fn set_rle_input(self, text: &str) -> (config: Self)
        ensures
            config@ == (ConfigView { input: InputView::RleString(text@), ..self@ }),
    {
        let mut config = self;
        config.input = UniverseInput::RleString(text.to_owned());
        config
    }

    /// Add additional cells to the outside of the universe. If the absolute
    /// size is specified, the padding will be added to the outside of the size.
    pub fn set_padding(self, padding: u32) -> (config: Self)
        ensures
            config@ == (ConfigView { padding: padding, ..self@ }),
    {
        let mut config = self;
        config.padding = padding;
        config
    }

    /// Set the edge length of a cell, in pixels.
    pub fn set_cell_size(self, cell_size: u32) -> (config: Self)
        ensures
            config@ == (ConfigView { cell_size: cell_size, ..self@ }),
    {
        let mut config = self;
        config.cell_size = cell_size;
        config
    }

    /// Set what happens at the edge of the grid.
    pub fn set_edge_rule(self, rule: EdgeRule) -> (config: Self)
        ensures
            config@ == (ConfigView { edge_rule: rule, ..self@ }),
    {
        let mut config = self;
        config.edge_rule = rule;
        config
    }

    /// Set the color of the lines between cells. The color is given as a string
    /// that is handed to the renderer, e.g. "red" or "#FF0000".
    pub fn set_line_color(self, color: &str) -> (config: Self)
        ensures
            config@ == (ConfigView { line_color: color@, ..self@ }),
    {
        let mut config = self;
        config.line_color = color.to_owned();
        config
    }

    /// Set the color of the cells when they are alive. The color is given as a
    /// string that is handed to the renderer, e.g. "red" or "#FF0000".
    pub fn set_cell_alive_color(self, color: &str) -> (config: Self)
        ensures
            config@ == (ConfigView { cell_alive_color: color@, ..self@ }),
    {
        let mut config = self;
        config.cell_alive_color = color.to_owned();
        config
    }

    /// Set the color of the cells when they are dead. The color is given as a
    /// string that is handed to the renderer, e.g. "red" or "#FF0000".
    pub fn set_cell_dead_color(self, color: &str) -> (config: Self)
        ensures
            config@ == (ConfigView { cell_dead_color: color@, ..self@ }),
    {
        let mut config = self;
        config.cell_dead_color = color.to_owned();
        config
    }

    /// If used, this overrides the universe size to the specified parameters.
    pub fn set_override_size(self, width: u32, height: u32) -> (config: Self)
        ensures
            config@ == (ConfigView { override_size: Some((width, height)), ..self@ }),
    {
        let mut config = self;
        config.override_size = Some((width, height));
        config
    }

    /// Construct a universe from a configuration. It has no cells until it is built.
    pub fn construct(self) -> (universe: Universe)
        ensures
            universe.wf(),
            universe.spec_config() == self@,
            universe@.cells == Seq::<Cell>::empty(),
            universe@.width == 0,
            universe@.height == 0,
    {
        let universe = Universe::from(self);
        proof {
            universe.lemma_view();
        }
        universe
    }
}

} // verus!
