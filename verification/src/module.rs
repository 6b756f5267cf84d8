//! The module assembler: ports, parameters, declarations and processes,
//! collected in order and written out as one module definition.
use crate::stmt::{Stmt, StmtView};
use crate::text::{
    concat, decimal, decimal_string, indent, join, join_lines, lines, listed, pad_left,
    pad_left_string, pad_right, pad_right_string, push_indented, push_line, push_lines,
    push_listed,
};
use vstd::prelude::*;

verus! {

/// The direction of a port.
#[derive(Debug, Clone, Copy, PartialEq, Eq, Structural)]
pub enum Direct {
    In,
    Out,
    InOut,
}

/// Model of a port.
pub struct PortView {
    pub name: Seq<char>,
    pub direct: Direct,
    pub bit: nat,
    pub len: nat,
}

/// Model of a module parameter.
pub struct ParamView {
    pub name: Seq<char>,
    pub default: Option<Seq<char>>,
}

/// Model of an edge in a sensitivity list.
pub enum EdgeView {
    Posedge(Seq<char>),
    Negedge(Seq<char>),
    Bothedge(Seq<char>),
}

/// Model of an instance of another module.
pub struct InstantView {
    pub name: Seq<char>,
    pub module: Seq<char>,
    pub params: Seq<(Seq<char>, Seq<char>)>,
    pub ports: Seq<(Seq<char>, Seq<char>)>,
}

/// Model of one element of a module's body.
pub enum ElementView {
    LocalParam { name: Seq<char>, val: Seq<char> },
    Logic { name: Seq<char>, bit: nat, len: nat },
    Instant(InstantView),
    AlwaysFF { sens: Seq<EdgeView>, stmt: StmtView },
    AlwaysComb { stmt: StmtView },
}

/// Model of a module.
pub struct ModuleView {
    pub name: Seq<char>,
    pub params: Seq<ParamView>,
    pub ports: Seq<PortView>,
    pub blocks: Seq<ElementView>,
}

/// A scalar port of `bit` bits.
pub open spec fn port(name: Seq<char>, direct: Direct, bit: nat) -> PortView {
    PortView { name, direct, bit, len: 1 }
}

/// The keyword of a direction.
pub open spec fn direct_text(d: Direct) -> Seq<char> {
    match d {
        Direct::In => "input"@,
        Direct::Out => "output"@,
        Direct::InOut => "inout"@,
    }
}

/// The bit range in front of a name: blank for one bit, `[msb:0]`
/// otherwise, both eight columns wide up to `msb == 99`.
pub open spec fn bit_text(bit: nat) -> Seq<char> {
    if bit == 1 {
        "       "@
    } else {
        "["@ + pad_left(decimal((bit - 1) as nat), 2) + ":0] "@
    }
}

/// The array range behind a name: nothing for one element, `[last:0]`
/// otherwise.
pub open spec fn len_text(len: nat) -> Seq<char> {
    if len == 1 {
        Seq::empty()
    } else {
        "["@ + pad_left(decimal((len - 1) as nat), 2) + ":0]"@
    }
}

/// The connections of an instance, as `.formal(actual)`.
pub open spec fn connections(pairs: Seq<(Seq<char>, Seq<char>)>) -> Seq<Seq<char>> {
    Seq::new(pairs.len(), |i: int| "."@ + pairs[i].0 + "("@ + pairs[i].1 + ")"@)
}

impl PortView {
    /// The declaration of the port in the module header.
    pub open spec fn render(self) -> Seq<char> {
        pad_right(direct_text(self.direct), 6) + " logic "@ + bit_text(self.bit) + self.name
            + len_text(self.len)
    }
}

impl ParamView {
    /// The declaration of the parameter in the module header.
    pub open spec fn render(self) -> Seq<char> {
        match self.default {
            Some(d) => "parameter "@ + self.name + " = "@ + d,
            None => "parameter "@ + self.name,
        }
    }
}

impl EdgeView {
    /// The edge as it stands in a sensitivity list.
    pub open spec fn render(self) -> Seq<char> {
        match self {
            EdgeView::Posedge(s) => "posedge "@ + s,
            EdgeView::Negedge(s) => "negedge "@ + s,
            EdgeView::Bothedge(s) => s,
        }
    }
}

/// The sensitivity list: the edges, joined by `or`.
pub open spec fn sens_text(edges: Seq<EdgeView>) -> Seq<char> {
    join(Seq::new(edges.len(), |i: int| edges[i].render()), " or "@)
}

impl InstantView {
    /// The lines of the instance.
    pub open spec fn render(self) -> Seq<Seq<char>> {
        seq![self.module + " #("@] + listed(connections(self.params)) + seq![
            ") "@ + self.name + " ("@,
        ] + listed(connections(self.ports)) + seq![");"@]
    }
}

impl ElementView {
    /// The lines of the element, not yet indented.
    pub open spec fn render(self) -> Seq<Seq<char>> {
        match self {
            ElementView::LocalParam { name, val } => seq![
                "localparam "@ + name + " = "@ + val + ";"@,
            ],
            ElementView::Logic { name, bit, len } => seq![
                "logic "@ + bit_text(bit) + name + len_text(len) + ";"@,
            ],
            ElementView::Instant(inst) => inst.render(),
            ElementView::AlwaysFF { sens, stmt } => seq![
                "always_ff @("@ + sens_text(sens) + ")"@,
            ] + indent(stmt.render("<="@)),
            ElementView::AlwaysComb { stmt } => seq!["always_comb"@] + indent(stmt.render("="@)),
        }
    }

    /// The group of the element when the body is written declarations
    /// first: 0 for local parameters, 1 for storage, 2 for instances and
    /// processes.
    pub open spec fn group(self) -> nat {
        match self {
            ElementView::LocalParam { .. } => 0,
            ElementView::Logic { .. } => 1,
            _ => 2,
        }
    }
}

/// The elements in order, each indented by one level.
pub open spec fn render_elements(elems: Seq<ElementView>) -> Seq<Seq<char>>
    decreases elems.len(),
{
    if elems.len() == 0 {
        Seq::empty()
    } else {
        render_elements(elems.drop_last()) + indent(elems.last().render())
    }
}

/// The elements of group `g`, in their order in `elems`.
pub open spec fn of_group(elems: Seq<ElementView>, g: nat) -> Seq<ElementView> {
    elems.filter(|e: ElementView| e.group() == g)
}

impl ModuleView {
    /// The header: the name, the parameter list if there is a parameter,
    /// the port list if there is a port, and the closing semicolon.
    pub open spec fn header(self) -> Seq<Seq<char>> {
        seq!["module "@ + self.name] + (if self.params.len() > 0 {
            seq!["#("@] + listed(Seq::new(self.params.len(), |i: int| self.params[i].render()))
                + seq![")"@]
        } else {
            Seq::empty()
        }) + (if self.ports.len() > 0 {
            seq!["("@] + listed(Seq::new(self.ports.len(), |i: int| self.ports[i].render()))
                + seq![")"@]
        } else {
            Seq::empty()
        }) + seq![";"@]
    }

    /// The closing line.
    pub open spec fn footer(self) -> Seq<Seq<char>> {
        seq!["endmodule"@]
    }

    /// The module with its body in the order of construction.
    pub open spec fn render(self) -> Seq<Seq<char>> {
        self.header() + render_elements(self.blocks) + self.footer()
    }

    /// The module with its body grouped: local parameters, then storage,
    /// then instances and processes, each group in the order of
    /// construction.
    pub open spec fn render_sorted(self) -> Seq<Seq<char>> {
        self.header() + render_elements(of_group(self.blocks, 0)) + render_elements(
            of_group(self.blocks, 1),
        ) + render_elements(of_group(self.blocks, 2)) + self.footer()
    }
}

/// Rendering is a function of the model alone: whatever two runs return
/// for modules with the same model is the same text, line by line and
/// character by character, in either order of the body.
pub proof fn lemma_render_is_deterministic(
    a: ModuleView,
    b: ModuleView,
    text_a: Seq<String>,
    text_b: Seq<String>,
    sorted_a: Seq<String>,
    sorted_b: Seq<String>,
)
    requires
        a == b,
        lines(text_a) == a.render(),
        lines(text_b) == b.render(),
        lines(sorted_a) == a.render_sorted(),
        lines(sorted_b) == b.render_sorted(),
    ensures
        text_a.len() == text_b.len(),
        forall|i: int| 0 <= i < text_a.len() ==> (#[trigger] text_a[i])@ == text_b[i]@,
        sorted_a.len() == sorted_b.len(),
        forall|i: int| 0 <= i < sorted_a.len() ==> (#[trigger] sorted_a[i])@ == sorted_b[i]@,
{
    assert(lines(text_a).len() == text_a.len() && lines(text_b).len() == text_b.len());
    assert(lines(sorted_a).len() == sorted_a.len() && lines(sorted_b).len() == sorted_b.len());
    assert forall|i: int| 0 <= i < text_a.len() implies (#[trigger] text_a[i])@ == text_b[i]@ by {
        assert(lines(text_a)[i] == lines(text_b)[i]);
    }
    assert forall|i: int| 0 <= i < sorted_a.len() implies (#[trigger] sorted_a[i])@
        == sorted_b[i]@ by {
        assert(lines(sorted_a)[i] == lines(sorted_b)[i]);
    }
}

/// A port of a module.
#[derive(Debug)]
pub struct Port {
    name: String,
    direct: Direct,
    bit: usize,
    len: usize,
}

/// A parameter of a module.
#[derive(Debug, Clone)]
pub struct Param {
    name: String,
    default: Option<String>,
}

/// A local parameter.
#[derive(Debug, Clone)]
pub struct LocalParam {
    name: String,
    val: String,
}

/// A storage declaration.
#[derive(Debug)]
pub struct Logic {
    name: String,
    bit: usize,
    len: usize,
}

/// An instance of another module.
#[derive(Debug, Clone)]
pub struct Instant {
    name: String,
    module: String,
    params: Vec<(String, String)>,
    ports: Vec<(String, String)>,
}

/// An edge in a sensitivity list.
#[derive(Debug, Clone)]
pub enum Edge {
    Posedge(String),
    Negedge(String),
    Bothedge(String),
}

/// A sensitivity list.
#[derive(Debug, Clone)]
pub struct Sens {
    edges: Vec<Edge>,
}

/// A clocked process.
#[derive(Debug, Clone)]
pub struct AlwaysFF {
    sens: Sens,
    stmt: Stmt,
}

/// A combinational process.
#[derive(Debug, Clone)]
pub struct AlwaysComb {
    stmt: Stmt,
}

/// One element of a module's body.
#[derive(Debug, Clone)]
pub enum Element {
    LocalParam(LocalParam),
    Logic(Logic),
    Instant(Instant),
    AlwaysFF(AlwaysFF),
    AlwaysComb(AlwaysComb),
}

/// A module under construction.
#[derive(Debug, Clone)]
pub struct Module {
    name: String,
    params: Vec<Param>,
    ports: Vec<Port>,
    blocks: Vec<Element>,
}

spec fn pairs_view(pairs: Seq<(String, String)>) -> Seq<(Seq<char>, Seq<char>)> {
    Seq::new(pairs.len(), |i: int| (pairs[i].0@, pairs[i].1@))
}

impl View for Port {
    type V = PortView;

    closed spec fn view(&self) -> PortView {
        PortView {
            name: self.name@,
            direct: self.direct,
            bit: self.bit as nat,
            len: self.len as nat,
        }
    }
}

impl View for Param {
    type V = ParamView;

    closed spec fn view(&self) -> ParamView {
        ParamView {
            name: self.name@,
            default: match self.default {
                Some(d) => Some(d@),
                None => None,
            },
        }
    }
}

impl View for LocalParam {
    type V = ElementView;

    closed spec fn view(&self) -> ElementView {
        ElementView::LocalParam { name: self.name@, val: self.val@ }
    }
}

impl View for Logic {
    type V = ElementView;

    closed spec fn view(&self) -> ElementView {
        ElementView::Logic { name: self.name@, bit: self.bit as nat, len: self.len as nat }
    }
}

impl View for Instant {
    type V = InstantView;

    closed spec fn view(&self) -> InstantView {
        InstantView {
            name: self.name@,
            module: self.module@,
            params: pairs_view(self.params@),
            ports: pairs_view(self.ports@),
        }
    }
}

impl View for Edge {
    type V = EdgeView;

    closed spec fn view(&self) -> EdgeView {
        match self {
            Edge::Posedge(s) => EdgeView::Posedge(s@),
            Edge::Negedge(s) => EdgeView::Negedge(s@),
            Edge::Bothedge(s) => EdgeView::Bothedge(s@),
        }
    }
}

impl View for Sens {
    type V = Seq<EdgeView>;

    closed spec fn view(&self) -> Seq<EdgeView> {
        Seq::new(self.edges@.len(), |i: int| self.edges@[i]@)
    }
}

impl View for AlwaysFF {
    type V = ElementView;

    closed spec fn view(&self) -> ElementView {
        ElementView::AlwaysFF { sens: self.sens@, stmt: self.stmt@ }
    }
}

impl View for AlwaysComb {
    type V = ElementView;

    closed spec fn view(&self) -> ElementView {
        ElementView::AlwaysComb { stmt: self.stmt@ }
    }
}

impl View for Element {
    type V = ElementView;

    closed spec fn view(&self) -> ElementView {
        match self {
            Element::LocalParam(e) => e@,
            Element::Logic(e) => e@,
            Element::Instant(e) => ElementView::Instant(e@),
            Element::AlwaysFF(e) => e@,
            Element::AlwaysComb(e) => e@,
        }
    }
}

impl View for Module {
    type V = ModuleView;

    closed spec fn view(&self) -> ModuleView {
        ModuleView {
            name: self.name@,
            params: Seq::new(self.params@.len(), |i: int| self.params@[i]@),
            ports: Seq::new(self.ports@.len(), |i: int| self.ports@[i]@),
            blocks: Seq::new(self.blocks@.len(), |i: int| self.blocks@[i]@),
        }
    }
}

/// Renders the bit range in front of a name.
fn bit_string(bit: usize) -> (r: String)
    requires
        bit >= 1,
    ensures
        r@ == bit_text(bit as nat),
{
    if bit == 1 {
        String::from_str("       ")
    } else {
        let mut s = String::from_str("[");
        s.append(pad_left_string(decimal_string(bit - 1).as_str(), 2).as_str());
        s.append(":0] ");
        s
    }
}

/// Renders the array range behind a name.
fn len_string(len: usize) -> (r: String)
    requires
        len >= 1,
    ensures
        r@ == len_text(len as nat),
{
    if len == 1 {
        String::new()
    } else {
        let mut s = String::from_str("[");
        s.append(pad_left_string(decimal_string(len - 1).as_str(), 2).as_str());
        s.append(":0]");
        s
    }
}

/// Renders connections as `.formal(actual)`.
fn connection_strings(pairs: &Vec<(String, String)>) -> (r: Vec<String>)
    ensures
        lines(r@) == connections(pairs_view(pairs@)),
{
    let mut out: Vec<String> = Vec::new();
    let mut i: usize = 0;
    while i < pairs.len()
        invariant
            i <= pairs.len(),
            lines(out@) == connections(pairs_view(pairs@)).subrange(0, i as int),
        decreases pairs.len() - i,
    {
        let mut s = String::from_str(".");
        s.append(pairs[i].0.as_str());
        s.append("(");
        s.append(pairs[i].1.as_str());
        s.append(")");
        let ghost prev = lines(out@);
        push_line(&mut out, s);
        assert(lines(out@) =~= connections(pairs_view(pairs@)).subrange(0, i + 1));
        i = i + 1;
    }
    assert(lines(out@) =~= connections(pairs_view(pairs@)));
    out
}

impl Direct {
    /// The keyword of the direction.
    pub fn verilog(&self) -> (r: String)
        ensures
            r@ == direct_text(*self),
    {
        match self {
            Direct::In => String::from_str("input"),
            Direct::Out => String::from_str("output"),
            Direct::InOut => String::from_str("inout"),
        }
    }
}

impl Port {
    #[verifier::type_invariant]
    spec fn inv(self) -> bool {
        self.bit >= 1 && self.len >= 1
    }

    /// An input of `bit` bits and `len` elements.
    pub fn input(name: &str, bit: usize, len: usize) -> (r: Port)
        requires
            bit >= 1,
            len >= 1,
        ensures
            r@ == (PortView {
                name: name@,
                direct: Direct::In,
                bit: bit as nat,
                len: len as nat,
            }),
    {
        Port { name: String::from_str(name), direct: Direct::In, bit, len }
    }

    /// An output of `bit` bits and `len` elements.
    pub fn output(name: &str, bit: usize, len: usize) -> (r: Port)
        requires
            bit >= 1,
            len >= 1,
        ensures
            r@ == (PortView {
                name: name@,
                direct: Direct::Out,
                bit: bit as nat,
                len: len as nat,
            }),
    {
        Port { name: String::from_str(name), direct: Direct::Out, bit, len }
    }

    /// A bidirectional port of `bit` bits and `len` elements.
    pub fn inout(name: &str, bit: usize, len: usize) -> (r: Port)
        requires
            bit >= 1,
            len >= 1,
        ensures
            r@ == (PortView {
                name: name@,
                direct: Direct::InOut,
                bit: bit as nat,
                len: len as nat,
            }),
    {
        Port { name: String::from_str(name), direct: Direct::InOut, bit, len }
    }

    /// The declaration of the port in the module header.
    pub fn verilog(&self) -> (r: String)
        ensures
            r@ == self@.render(),
            self@.bit >= 1,
            self@.len >= 1,
    {
        proof {
            use_type_invariant(self);
        }
        let mut s = pad_right_string(self.direct.verilog().as_str(), 6);
        s.append(" logic ");
        s.append(bit_string(self.bit).as_str());
        s.append(self.name.as_str());
        s.append(len_string(self.len).as_str());
        s
    }
}

impl Clone for Port {
    fn clone(&self) -> (r: Port)
        ensures
            r@ == self@,
    {
        proof {
            use_type_invariant(self);
        }
        Port { name: self.name.clone(), direct: self.direct, bit: self.bit, len: self.len }
    }
}

impl Param {
    /// A parameter, with or without a default value.
    pub fn new(name: &str, default: Option<&str>) -> (r: Param)
        ensures
            r@ == (ParamView {
                name: name@,
                default: match default {
                    Some(d) => Some(d@),
                    None => None,
                },
            }),
    {
        Param {
            name: String::from_str(name),
            default: match default {
                Some(d) => Some(String::from_str(d)),
                None => None,
            },
        }
    }

    /// The declaration of the parameter in the module header.
    pub fn verilog(&self) -> (r: String)
        ensures
            r@ == self@.render(),
    {
        let mut s = String::from_str("parameter ");
        s.append(self.name.as_str());
        match &self.default {
            Some(d) => {
                s.append(" = ");
                s.append(d.as_str());
            },
            None => {},
        }
        s
    }
}

impl LocalParam {
    /// The local parameter `name` with the value `val`.
    pub fn new(name: &str, val: &str) -> (r: LocalParam)
        ensures
            r@ == (ElementView::LocalParam { name: name@, val: val@ }),
    {
        LocalParam { name: String::from_str(name), val: String::from_str(val) }
    }

    /// The one line of the declaration.
    pub fn verilog(&self) -> (r: Vec<String>)
        ensures
            lines(r@) == self@.render(),
    {
        let mut s = String::from_str("localparam ");
        s.append(self.name.as_str());
        s.append(" = ");
        s.append(self.val.as_str());
        s.append(";");
        let mut out: Vec<String> = Vec::new();
        push_line(&mut out, s);
        assert(lines(out@) =~= self@.render());
        out
    }
}

impl Logic {
    #[verifier::type_invariant]
    spec fn inv(self) -> bool {
        self.bit >= 1 && self.len >= 1
    }

    /// Storage of `len` elements of `bit` bits each.
    pub fn new(name: &str, bit: usize, len: usize) -> (r: Logic)
        requires
            bit >= 1,
            len >= 1,
        ensures
            r@ == (ElementView::Logic { name: name@, bit: bit as nat, len: len as nat }),
    {
        Logic { name: String::from_str(name), bit, len }
    }

    /// The one line of the declaration.
    pub fn verilog(&self) -> (r: Vec<String>)
        ensures
            lines(r@) == self@.render(),
    {
        proof {
            use_type_invariant(self);
        }
        let mut s = String::from_str("logic ");
        s.append(bit_string(self.bit).as_str());
        s.append(self.name.as_str());
        s.append(len_string(self.len).as_str());
        s.append(";");
        let mut out: Vec<String> = Vec::new();
        push_line(&mut out, s);
        assert(lines(out@) =~= self@.render());
        out
    }
}

impl Clone for Logic {
    fn clone(&self) -> (r: Logic)
        ensures
            r@ == self@,
    {
        proof {
            use_type_invariant(self);
        }
        Logic { name: self.name.clone(), bit: self.bit, len: self.len }
    }
}

impl Instant {
    /// The instance `name` of the module `module`, with nothing connected.
    pub fn new(name: &str, module: &str) -> (r: Instant)
        ensures
            r@ == (InstantView {
                name: name@,
                module: module@,
                params: Seq::empty(),
                ports: Seq::empty(),
            }),
    {
        let r = Instant {
            name: String::from_str(name),
            module: String::from_str(module),
            params: Vec::new(),
            ports: Vec::new(),
        };
        assert(r@.params =~= Seq::empty());
        assert(r@.ports =~= Seq::empty());
        r
    }

    /// Sets the parameter `param` of the instance to `val`.
    pub fn param(self, param: &str, val: &str) -> (r: Instant)
        ensures
            r@ == (InstantView { params: self@.params.push((param@, val@)), ..self@ }),
    {
        let mut inst = self;
        inst.params.push((String::from_str(param), String::from_str(val)));
        assert(inst@.params =~= self@.params.push((param@, val@)));
        inst
    }

    /// Connects the port `port` of the instance to `wire`.
    pub fn port(self, port: &str, wire: &str) -> (r: Instant)
        ensures
            r@ == (InstantView { ports: self@.ports.push((port@, wire@)), ..self@ }),
    {
        let mut inst = self;
        inst.ports.push((String::from_str(port), String::from_str(wire)));
        assert(inst@.ports =~= self@.ports.push((port@, wire@)));
        inst
    }

    /// The lines of the instance.
    pub fn verilog(&self) -> (r: Vec<String>)
        ensures
            lines(r@) == self@.render(),
    {
        let mut code: Vec<String> = Vec::new();
        push_line(&mut code, concat(self.module.as_str(), " #("));
        let params = connection_strings(&self.params);
        push_listed(&mut code, &params);
        let mut mid = String::from_str(") ");
        mid.append(self.name.as_str());
        mid.append(" (");
        push_line(&mut code, mid);
        let ports = connection_strings(&self.ports);
        push_listed(&mut code, &ports);
        push_line(&mut code, String::from_str(");"));
        assert(lines(code@) =~= self@.render());
        code
    }
}

impl Edge {
    /// The edge as it stands in a sensitivity list.
    pub fn verilog(&self) -> (r: String)
        ensures
            r@ == self@.render(),
    {
        match self {
            Edge::Posedge(s) => concat("posedge ", s.as_str()),
            Edge::Negedge(s) => concat("negedge ", s.as_str()),
            Edge::Bothedge(s) => s.clone(),
        }
    }
}

impl Sens {
    /// The empty sensitivity list.
    pub fn new() -> (r: Sens)
        ensures
            r@ == Seq::<EdgeView>::empty(),
    {
        let r = Sens { edges: Vec::new() };
        assert(r@ =~= Seq::<EdgeView>::empty());
        r
    }

    /// Adds the rising edge of `wire`.
    pub fn posedge(self, wire: &str) -> (r: Sens)
        ensures
            r@ == self@.push(EdgeView::Posedge(wire@)),
    {
        let mut sens = self;
        sens.edges.push(Edge::Posedge(String::from_str(wire)));
        assert(sens@ =~= self@.push(EdgeView::Posedge(wire@)));
        sens
    }

    /// Adds the falling edge of `wire`.
    pub fn negedge(self, wire: &str) -> (r: Sens)
        ensures
            r@ == self@.push(EdgeView::Negedge(wire@)),
    {
        let mut sens = self;
        sens.edges.push(Edge::Negedge(String::from_str(wire)));
        assert(sens@ =~= self@.push(EdgeView::Negedge(wire@)));
        sens
    }

    /// Adds both edges of `wire`.
    pub fn bothedge(self, wire: &str) -> (r: Sens)
        ensures
            r@ == self@.push(EdgeView::Bothedge(wire@)),
    {
        let mut sens = self;
        sens.edges.push(Edge::Bothedge(String::from_str(wire)));
        assert(sens@ =~= self@.push(EdgeView::Bothedge(wire@)));
        sens
    }

    /// The edges, joined by `or`.
    pub fn verilog(&self) -> (r: String)
        ensures
            r@ == sens_text(self@),
    {
        let mut texts: Vec<String> = Vec::new();
        let mut i: usize = 0;
        while i < self.edges.len()
            invariant
                i <= self.edges.len(),
                lines(texts@) == Seq::new(i as nat, |k: int| self.edges@[k]@.render()),
            decreases self.edges.len() - i,
        {
            let t = self.edges[i].verilog();
            push_line(&mut texts, t);
            assert(lines(texts@) =~= Seq::new((i + 1) as nat, |k: int| self.edges@[k]@.render()));
            i = i + 1;
        }
        assert(lines(texts@) =~= Seq::new(self@.len(), |k: int| self@[k].render()));
        join_lines(&texts, " or ")
    }
}

impl AlwaysFF {
    /// The process that runs `stmt` on the edges of `sens`.
    pub fn new(sens: Sens, stmt: Stmt) -> (r: AlwaysFF)
        ensures
            r@ == (ElementView::AlwaysFF { sens: sens@, stmt: stmt@ }),
    {
        AlwaysFF { sens, stmt }
    }

    /// The lines of the process; assignments are deferred (`<=`).
    pub fn verilog(&self) -> (r: Vec<String>)
        ensures
            lines(r@) == self@.render(),
    {
        let mut head = String::from_str("always_ff @(");
        head.append(self.sens.verilog().as_str());
        head.append(")");
        let mut code: Vec<String> = Vec::new();
        push_line(&mut code, head);
        let body = self.stmt.nonblocking();
        push_indented(&mut code, &body);
        assert(lines(code@) =~= self@.render());
        code
    }
}

impl AlwaysComb {
    /// The process that runs `stmt` whenever an input changes.
    pub fn new(stmt: Stmt) -> (r: AlwaysComb)
        ensures
            r@ == (ElementView::AlwaysComb { stmt: stmt@ }),
    {
        AlwaysComb { stmt }
    }

    /// The lines of the process; assignments are immediate (`=`).
    pub fn verilog(&self) -> (r: Vec<String>)
        ensures
            lines(r@) == self@.render(),
    {
        let mut code: Vec<String> = Vec::new();
        push_line(&mut code, String::from_str("always_comb"));
        let body = self.stmt.blocking();
        push_indented(&mut code, &body);
        assert(lines(code@) =~= self@.render());
        code
    }
}

impl Element {
    /// The lines of the element, not yet indented.
    pub fn verilog(&self) -> (r: Vec<String>)
        ensures
            lines(r@) == self@.render(),
    {
        match self {
            Element::LocalParam(e) => e.verilog(),
            Element::Logic(e) => e.verilog(),
            Element::Instant(e) => e.verilog(),
            Element::AlwaysFF(e) => e.verilog(),
            Element::AlwaysComb(e) => e.verilog(),
        }
    }

    /// The group of the element in a grouped body.
    pub fn group(&self) -> (g: usize)
        ensures
            g == self@.group(),
    {
        match self {
            Element::LocalParam(_) => 0,
            Element::Logic(_) => 1,
            _ => 2,
        }
    }
}

proof fn lemma_of_group_push(elems: Seq<ElementView>, e: ElementView, g: nat)
    ensures
        of_group(elems.push(e), g) == if e.group() == g {
            of_group(elems, g).push(e)
        } else {
            of_group(elems, g)
        },
{
    reveal_with_fuel(Seq::filter, 2);
    assert(elems.push(e).drop_last() =~= elems);
}

/// Whether the elements stand in the order of their groups.
pub open spec fn in_group_order(elems: Seq<ElementView>) -> bool {
    forall|i: int, j: int| 0 <= i < j < elems.len() ==> #[trigger] follows(elems[i], elems[j])
}

/// Whether `b` may follow `a` in a grouped body.
pub open spec fn follows(a: ElementView, b: ElementView) -> bool {
    a.group() <= b.group()
}

proof fn lemma_of_group_none(elems: Seq<ElementView>, g: nat)
    requires
        forall|i: int| 0 <= i < elems.len() ==> (#[trigger] elems[i]).group() != g,
    ensures
        of_group(elems, g) == Seq::<ElementView>::empty(),
    decreases elems.len(),
{
    if elems.len() == 0 {
        reveal_with_fuel(Seq::filter, 1);
    } else {
        let head = elems.drop_last();
        assert forall|i: int| 0 <= i < head.len() implies (#[trigger] head[i]).group() != g by {
            assert(head[i] == elems[i]);
        }
        lemma_of_group_none(head, g);
        lemma_of_group_push(head, elems.last(), g);
        assert(head.push(elems.last()) =~= elems);
    }
}

proof fn lemma_add_behind<A>(x: Seq<A>, y: Seq<A>, z: Seq<A>, t: Seq<A>, g: nat)
    requires
        g <= 2,
        g < 2 ==> z.len() == 0,
        g < 1 ==> y.len() == 0,
    ensures
        (x + y + z) + t == if g == 0 {
            (x + t) + y + z
        } else if g == 1 {
            x + (y + t) + z
        } else {
            x + y + (z + t)
        },
{
    if g == 0 {
        assert((x + y + z) + t =~= (x + t) + y + z);
    } else if g == 1 {
        assert((x + y + z) + t =~= x + (y + t) + z);
    } else {
        assert((x + y + z) + t =~= x + y + (z + t));
    }
}

proof fn lemma_render_group_push(head: Seq<ElementView>, last: ElementView, g: nat)
    ensures
        render_elements(of_group(head.push(last), g)) == if last.group() == g {
            render_elements(of_group(head, g)) + indent(last.render())
        } else {
            render_elements(of_group(head, g))
        },
{
    lemma_of_group_push(head, last, g);
    if last.group() == g {
        assert(of_group(head, g).push(last).drop_last() =~= of_group(head, g));
    }
}

proof fn lemma_render_groups_in_order(elems: Seq<ElementView>)
    requires
        in_group_order(elems),
    ensures
        render_elements(of_group(elems, 0)) + render_elements(of_group(elems, 1))
            + render_elements(of_group(elems, 2)) == render_elements(elems),
    decreases elems.len(),
{
    if elems.len() == 0 {
        lemma_of_group_none(elems, 0);
        lemma_of_group_none(elems, 1);
        lemma_of_group_none(elems, 2);
        assert(Seq::<Seq<char>>::empty() + Seq::<Seq<char>>::empty() + Seq::<
            Seq<char>,
        >::empty() =~= Seq::<Seq<char>>::empty());
    } else {
        let head = elems.drop_last();
        let last = elems.last();
        let g = last.group();
        assert(in_group_order(head)) by {
            assert forall|i: int, j: int| 0 <= i < j < head.len() implies #[trigger] follows(
                head[i],
                head[j],
            ) by {
                assert(follows(elems[i], elems[j]));
            }
        }
        lemma_render_groups_in_order(head);
        let x = render_elements(of_group(head, 0));
        let y = render_elements(of_group(head, 1));
        let z = render_elements(of_group(head, 2));
        assert(g < 2 ==> z.len() == 0) by {
            if g < 2 {
                assert forall|i: int| 0 <= i < head.len() implies (#[trigger] head[i]).group()
                    != 2 by {
                    assert(follows(elems[i], elems[elems.len() - 1]));
                }
                lemma_of_group_none(head, 2);
            }
        }
        assert(g < 1 ==> y.len() == 0) by {
            if g < 1 {
                assert forall|i: int| 0 <= i < head.len() implies (#[trigger] head[i]).group()
                    != 1 by {
                    assert(follows(elems[i], elems[elems.len() - 1]));
                }
                lemma_of_group_none(head, 1);
            }
        }
        assert(head.push(last) == elems) by {
            assert(head.push(last) =~= elems);
        }
        lemma_render_group_push(head, last, 0);
        lemma_render_group_push(head, last, 1);
        lemma_render_group_push(head, last, 2);
        lemma_add_behind(x, y, z, indent(last.render()), g);
    }
}

proof fn lemma_add_inside<A>(h: Seq<A>, x: Seq<A>, y: Seq<A>, z: Seq<A>, f: Seq<A>)
    ensures
        h + x + y + z + f == h + (x + y + z) + f,
{
    assert(h + x + y + z + f =~= h + (x + y + z) + f);
}

/// Where the body of a module already stands in the order of the groups,
/// grouping changes nothing: both renderings are the same text.
pub proof fn lemma_sorted_is_plain(m: ModuleView)
    requires
        in_group_order(m.blocks),
    ensures
        m.render_sorted() == m.render(),
{
    lemma_render_groups_in_order(m.blocks);
    lemma_add_inside(
        m.header(),
        render_elements(of_group(m.blocks, 0)),
        render_elements(of_group(m.blocks, 1)),
        render_elements(of_group(m.blocks, 2)),
        m.footer(),
    );
}

impl Module {
    /// The module `name`, with nothing in it.
    pub fn new(name: &str) -> (r: Module)
        ensures
            r@ == (ModuleView {
                name: name@,
                params: Seq::empty(),
                ports: Seq::empty(),
                blocks: Seq::empty(),
            }),
    {
        let r = Module {
            name: String::from_str(name),
            params: Vec::new(),
            ports: Vec::new(),
            blocks: Vec::new(),
        };
        assert(r@.params =~= Seq::empty());
        assert(r@.ports =~= Seq::empty());
        assert(r@.blocks =~= Seq::empty());
        r
    }

    fn port(self, port: Port) -> (r: Module)
        ensures
            r@ == (ModuleView { ports: self@.ports.push(port@), ..self@ }),
    {
        let mut m = self;
        m.ports.push(port);
        assert(m@.ports =~= self@.ports.push(port@));
        assert(m@.params =~= self@.params);
        assert(m@.blocks =~= self@.blocks);
        m
    }

    fn element(self, e: Element) -> (r: Module)
        ensures
            r@ == (ModuleView { blocks: self@.blocks.push(e@), ..self@ }),
    {
        let mut m = self;
        m.blocks.push(e);
        assert(m@.blocks =~= self@.blocks.push(e@));
        assert(m@.params =~= self@.params);
        assert(m@.ports =~= self@.ports);
        m
    }

    /// Adds an input of `width` bits.
    pub fn input(self, name: &str, width: usize) -> (r: Module)
        requires
            width > 0,
        ensures
            r@ == (ModuleView {
                ports: self@.ports.push(port(name@, Direct::In, width as nat)),
                ..self@
            }),
    {
        self.port(Port::input(name, width, 1))
    }

    /// Adds an output of `width` bits.
    pub fn output(self, name: &str, width: usize) -> (r: Module)
        requires
            width > 0,
        ensures
            r@ == (ModuleView {
                ports: self@.ports.push(port(name@, Direct::Out, width as nat)),
                ..self@
            }),
    {
        self.port(Port::output(name, width, 1))
    }

    /// Adds a bidirectional port of `width` bits.
    pub fn inout(self, name: &str, width: usize) -> (r: Module)
        requires
            width > 0,
        ensures
            r@ == (ModuleView {
                ports: self@.ports.push(port(name@, Direct::InOut, width as nat)),
                ..self@
            }),
    {
        self.port(Port::inout(name, width, 1))
    }

    /// Adds a parameter, with or without a default value.
    pub fn param(self, name: &str, default: Option<&str>) -> (r: Module)
        ensures
            r@ == (ModuleView {
                params: self@.params.push(
                    ParamView {
                        name: name@,
                        default: match default {
                            Some(d) => Some(d@),
                            None => None,
                        },
                    },
                ),
                ..self@
            }),
    {
        let mut m = self;
        let p = Param::new(name, default);
        m.params.push(p);
        assert(m@.params =~= self@.params.push(p@));
        assert(m@.ports =~= self@.ports);
        assert(m@.blocks =~= self@.blocks);
        m
    }

    /// Adds the local parameter `name` with the value `val`.
    pub fn lparam(self, name: &str, val: &str) -> (r: Module)
        ensures
            r@ == (ModuleView {
                blocks: self@.blocks.push(ElementView::LocalParam { name: name@, val: val@ }),
                ..self@
            }),
    {
        self.element(Element::LocalParam(LocalParam::new(name, val)))
    }

    /// Declares storage of `len` elements of `bit` bits each.
    pub fn logic(self, name: &str, bit: usize, len: usize) -> (r: Module)
        requires
            bit > 0,
            len > 0,
        ensures
            r@ == (ModuleView {
                blocks: self@.blocks.push(
                    ElementView::Logic { name: name@, bit: bit as nat, len: len as nat },
                ),
                ..self@
            }),
    {
        self.element(Element::Logic(Logic::new(name, bit, len)))
    }

    /// Adds an instance of another module.
    pub fn instant(self, inst: Instant) -> (r: Module)
        ensures
            r@ == (ModuleView { blocks: self@.blocks.push(ElementView::Instant(inst@)), ..self@ }),
    {
        self.element(Element::Instant(inst))
    }

    /// Adds a combinational process.
    pub fn always_comb(self, stmt: Stmt) -> (r: Module)
        ensures
            r@ == (ModuleView {
                blocks: self@.blocks.push(ElementView::AlwaysComb { stmt: stmt@ }),
                ..self@
            }),
    {
        self.element(Element::AlwaysComb(AlwaysComb::new(stmt)))
    }

    /// Adds a clocked process.
    pub fn always_ff(self, edges: Sens, stmt: Stmt) -> (r: Module)
        ensures
            r@ == (ModuleView {
                blocks: self@.blocks.push(ElementView::AlwaysFF { sens: edges@, stmt: stmt@ }),
                ..self@
            }),
    {
        self.element(Element::AlwaysFF(AlwaysFF::new(edges, stmt)))
    }

    /// The lines of the module, the body in the order of construction.
    pub fn verilog(&self) -> (r: Vec<String>)
        ensures
            lines(r@) == self@.render(),
    {
        let mut code = self.module_header();
        let mut i: usize = 0;
        while i < self.blocks.len()
            invariant
                i <= self.blocks.len(),
                lines(code@) == self@.header() + render_elements(
                    self@.blocks.subrange(0, i as int),
                ),
            decreases self.blocks.len() - i,
        {
            let ls = self.blocks[i].verilog();
            proof {
                let next = self@.blocks.subrange(0, i + 1);
                assert(next.drop_last() =~= self@.blocks.subrange(0, i as int));
            }
            push_indented(&mut code, &ls);
            i = i + 1;
        }
        assert(self@.blocks.subrange(0, i as int) =~= self@.blocks);
        push_lines(&mut code, self.module_footer());
        code
    }

    /// Appends the elements of group `g`, in order and indented.
    fn push_group(&self, code: &mut Vec<String>, g: usize)
        ensures
            lines(final(code)@) == lines(old(code)@) + render_elements(
                of_group(self@.blocks, g as nat),
            ),
    {
        let mut i: usize = 0;
        proof {
            reveal_with_fuel(Seq::filter, 1);
            assert(of_group(self@.blocks.subrange(0, 0), g as nat) =~= Seq::empty());
            assert(lines(code@) + Seq::<Seq<char>>::empty() =~= lines(code@));
        }
        while i < self.blocks.len()
            invariant
                i <= self.blocks.len(),
                lines(code@) == lines(old(code)@) + render_elements(
                    of_group(self@.blocks.subrange(0, i as int), g as nat),
                ),
            decreases self.blocks.len() - i,
        {
            proof {
                let head = self@.blocks.subrange(0, i as int);
                assert(self@.blocks.subrange(0, i + 1) =~= head.push(self@.blocks[i as int]));
                lemma_of_group_push(head, self@.blocks[i as int], g as nat);
                assert(of_group(head, g as nat).push(self@.blocks[i as int]).drop_last()
                    =~= of_group(head, g as nat));
            }
            if self.blocks[i].group() == g {
                let ls = self.blocks[i].verilog();
                push_indented(code, &ls);
            }
            i = i + 1;
        }
        assert(self@.blocks.subrange(0, i as int) =~= self@.blocks);
    }

    /// The lines of the module, the body grouped so that every
    /// declaration stands before the processes that use it.
    pub fn verilog_sorted(&self) -> (r: Vec<String>)
        ensures
            lines(r@) == self@.render_sorted(),
    {
        let mut code = self.module_header();
        self.push_group(&mut code, 0);
        self.push_group(&mut code, 1);
        self.push_group(&mut code, 2);
        push_lines(&mut code, self.module_footer());
        code
    }

    /// The lines of the header.
    pub fn module_header(&self) -> (r: Vec<String>)
        ensures
            lines(r@) == self@.header(),
    {
        let mut code: Vec<String> = Vec::new();
        push_line(&mut code, concat("module ", self.name.as_str()));
        if self.params.len() > 0 {
            let mut texts: Vec<String> = Vec::new();
            let mut i: usize = 0;
            while i < self.params.len()
                invariant
                    i <= self.params.len(),
                    lines(texts@) == Seq::new(i as nat, |k: int| self.params@[k]@.render()),
                decreases self.params.len() - i,
            {
                let t = self.params[i].verilog();
                push_line(&mut texts, t);
                assert(lines(texts@) =~= Seq::new(
                    (i + 1) as nat,
                    |k: int| self.params@[k]@.render(),
                ));
                i = i + 1;
            }
            assert(lines(texts@) =~= Seq::new(
                self@.params.len(),
                |k: int| self@.params[k].render(),
            ));
            push_line(&mut code, String::from_str("#("));
            push_listed(&mut code, &texts);
            push_line(&mut code, String::from_str(")"));
        }
        let ghost with_params = lines(code@);
        if self.ports.len() > 0 {
            let mut texts: Vec<String> = Vec::new();
            let mut i: usize = 0;
            while i < self.ports.len()
                invariant
                    i <= self.ports.len(),
                    lines(texts@) == Seq::new(i as nat, |k: int| self.ports@[k]@.render()),
                decreases self.ports.len() - i,
            {
                let t = self.ports[i].verilog();
                push_line(&mut texts, t);
                assert(lines(texts@) =~= Seq::new(
                    (i + 1) as nat,
                    |k: int| self.ports@[k]@.render(),
                ));
                i = i + 1;
            }
            assert(lines(texts@) =~= Seq::new(
                self@.ports.len(),
                |k: int| self@.ports[k].render(),
            ));
            push_line(&mut code, String::from_str("("));
            push_listed(&mut code, &texts);
            push_line(&mut code, String::from_str(")"));
        }
        push_line(&mut code, String::from_str(";"));
        assert(lines(code@) =~= self@.header());
        code
    }

    /// The closing line.
    pub fn module_footer(&self) -> (r: Vec<String>)
        ensures
            lines(r@) == self@.footer(),
    {
        let mut code: Vec<String> = Vec::new();
        push_line(&mut code, String::from_str("endmodule"));
        assert(lines(code@) =~= self@.footer());
        code
    }
}

} // verus!
