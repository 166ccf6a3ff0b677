//! The battery report that the operating system writes as XML: the usage
//! entries of its recent-usage section.

use vstd::prelude::*;

use crate::charge::ChargeState;
use crate::text::{decimal_chars, push_decimal, str_eq};

verus! {

/// A parsed XML document of the `roxmltree` crate.
#[verifier::external_type_specification]
#[verifier::external_body]
pub struct ExXmlDocument<'input>(roxmltree::Document<'input>);

/// The error with which the `roxmltree` crate refuses a document.
#[verifier::external_type_specification]
#[verifier::external_body]
pub struct ExXmlError(roxmltree::Error);

/// Whether `roxmltree` parses `source`, with document type definitions allowed.
pub uninterp spec fn xml_parses(source: Seq<char>) -> bool;

/// The nodes of the document parsed from `source`, in document order, by index.
pub uninterp spec fn xml_descendants(source: Seq<char>) -> Seq<usize>;

/// Whether node `node` of the document parsed from `source` is an element whose
/// local name is `name`.
pub uninterp spec fn xml_has_tag_name(source: Seq<char>, node: usize, name: Seq<char>) -> bool;

/// The text of node `node` of the document parsed from `source`: for an element,
/// that of its first child where that is a text node.
pub uninterp spec fn xml_text(source: Seq<char>, node: usize) -> Option<Seq<char>>;

/// The value of the attribute without namespace named `name` of node `node` of
/// the document parsed from `source`.
pub uninterp spec fn xml_attribute(source: Seq<char>, node: usize, name: Seq<char>) -> Option<Seq<char>>;

/// The children of node `node` of the document parsed from `source`, in order, by index.
pub uninterp spec fn xml_children(source: Seq<char>, node: usize) -> Seq<usize>;

/// Calls `roxmltree::Document::parse_with_options` with document type
/// definitions allowed; it succeeds exactly where the named result `xml_parses` holds.
#[verifier::external_body]
fn xml_parse<'a>(source: &'a str) -> (doc: Result<roxmltree::Document<'a>, roxmltree::Error>)
    ensures
        doc.is_ok() == xml_parses(source@),
{
    let options = roxmltree::ParsingOptions { allow_dtd: true, ..roxmltree::ParsingOptions::default() };
    roxmltree::Document::parse_with_options(source, options)
}

/// A battery report parsed as XML, with the text that it was parsed from. Its
/// fields are private and `parse` is its only constructor, so `doc` is always
/// what `roxmltree` parsed from `source`; the node accessors below state their
/// results over `source` on that ground.
pub struct BatteryReportDocument<'a> {
    source: &'a str,
    doc: roxmltree::Document<'a>,
}

impl<'a> BatteryReportDocument<'a> {
    /// The text that the document was parsed from.
    pub closed spec fn source_text(&self) -> Seq<char> {
        self.source@
    }

    /// Parses a battery report; none where the text is not well-formed XML.
    pub fn parse(source: &'a str) -> (doc: Option<BatteryReportDocument<'a>>)
        ensures
            doc.is_some() == xml_parses(source@),
            doc matches Some(d) ==> d.source_text() == source@,
    {
        match xml_parse(source) {
            Ok(doc) => Some(BatteryReportDocument { source, doc }),
            Err(_) => None,
        }
    }
}

/// Calls `roxmltree::Document::descendants`: the indices of all nodes in
/// document order, as the named result `xml_descendants` gives them.
#[verifier::external_body]
fn node_descendants(d: &BatteryReportDocument) -> (nodes: Vec<usize>)
    ensures
        nodes@ == xml_descendants(d.source_text()),
{
    d.doc.descendants().map(|n| n.id().get_usize()).collect()
}

/// Calls `roxmltree::Node::has_tag_name` on a node of the document; the result is
/// the named `xml_has_tag_name`.
#[verifier::external_body]
fn node_has_tag_name(d: &BatteryReportDocument, node: usize, name: &str) -> (r: bool)
    requires
        xml_descendants(d.source_text()).contains(node),
    ensures
        r == xml_has_tag_name(d.source_text(), node, name@),
{
    d.doc.get_node(roxmltree::NodeId::from(node)).unwrap().has_tag_name(name)
}

/// Calls `roxmltree::Node::text` on a node of the document; the result is the
/// named `xml_text`.
#[verifier::external_body]
fn node_text<'b>(d: &'b BatteryReportDocument, node: usize) -> (text: Option<&'b str>)
    requires
        xml_descendants(d.source_text()).contains(node),
    ensures
        match text {
            Some(t) => xml_text(d.source_text(), node) == Some(t@),
            None => xml_text(d.source_text(), node) is None,
        },
{
    d.doc.get_node(roxmltree::NodeId::from(node)).unwrap().text()
}

/// Calls `roxmltree::Node::attribute` with a name without namespace on a node of
/// the document; the result is the named `xml_attribute`.
#[verifier::external_body]
fn node_attribute<'b>(d: &'b BatteryReportDocument, node: usize, name: &str) -> (value: Option<&'b str>)
    requires
        xml_descendants(d.source_text()).contains(node),
    ensures
        match value {
            Some(v) => xml_attribute(d.source_text(), node, name@) == Some(v@),
            None => xml_attribute(d.source_text(), node, name@) is None,
        },
{
    d.doc.get_node(roxmltree::NodeId::from(node)).unwrap().attribute(name)
}

/// Calls `roxmltree::Node::children` on a node of the document: the indices of
/// its children in order, as the named `xml_children` gives them; each child is
/// a node of the document.
#[verifier::external_body]
fn node_children(d: &BatteryReportDocument, node: usize) -> (children: Vec<usize>)
    requires
        xml_descendants(d.source_text()).contains(node),
    ensures
        children@ == xml_children(d.source_text(), node),
        forall|i: int| 0 <= i < children@.len() ==> xml_descendants(d.source_text()).contains(#[trigger] children@[i]),
{
    d.doc.get_node(roxmltree::NodeId::from(node)).unwrap().children().map(|c| c.id().get_usize()).collect()
}


/// The index, among the document's nodes in document order, of the first node
/// at or after position `from` that is an element named `name`; the number of
/// nodes where there is none.
pub open spec fn first_tagged_from(source: Seq<char>, from: int, name: Seq<char>) -> int
    decreases xml_descendants(source).len() - from,
{
    let ds = xml_descendants(source);
    if from < 0 || from >= ds.len() {
        ds.len() as int
    } else if xml_has_tag_name(source, ds[from], name) {
        from
    } else {
        first_tagged_from(source, from + 1, name)
    }
}

/// Where a search through the nodes in document order continues after one
/// that found position `found`: just after it, or at the end where nothing was found.
pub open spec fn search_resumes_at(source: Seq<char>, found: int) -> int {
    if found < xml_descendants(source).len() {
        found + 1
    } else {
        xml_descendants(source).len() as int
    }
}

/// The position of the recent-usage section: the first `RecentUsage` element
/// after the first `Batteries` element after the first `SystemInformation`
/// element, searching on through the nodes in document order.
pub open spec fn recent_usage_position(source: Seq<char>) -> int {
    let system = first_tagged_from(source, 0, "SystemInformation"@);
    let batteries = first_tagged_from(source, search_resumes_at(source, system), "Batteries"@);
    first_tagged_from(source, search_resumes_at(source, batteries), "RecentUsage"@)
}

/// A child of the recent-usage section holds a usage entry where its text is
/// neither empty nor a line break followed by four spaces, and it has a
/// `Timestamp` attribute.
pub open spec fn is_usage_node(source: Seq<char>, node: usize) -> bool {
    &&& xml_text(source, node) != Some(""@)
    &&& xml_text(source, node) != Some("\n    "@)
    &&& xml_attribute(source, node, "Timestamp"@) is Some
}

/// The usage entry of a node: its `Timestamp`, `Ac` and `ChargeCapacity` attributes.
pub open spec fn usage_of_node(source: Seq<char>, node: usize) -> (Seq<char>, Option<Seq<char>>, Option<Seq<char>>) {
    (
        xml_attribute(source, node, "Timestamp"@).unwrap(),
        xml_attribute(source, node, "Ac"@),
        xml_attribute(source, node, "ChargeCapacity"@),
    )
}

/// The usage entries of the nodes `nodes`, in order.
pub open spec fn usages_of_nodes(source: Seq<char>, nodes: Seq<usize>) -> Seq<(Seq<char>, Option<Seq<char>>, Option<Seq<char>>)>
    decreases nodes.len(),
{
    if nodes.len() == 0 {
        Seq::empty()
    } else {
        let prev = usages_of_nodes(source, nodes.drop_last());
        if is_usage_node(source, nodes.last()) {
            prev.push(usage_of_node(source, nodes.last()))
        } else {
            prev
        }
    }
}

/// The usage entries of the report parsed from `source`: those of the children
/// of its recent-usage section, none where it has no such section.
pub open spec fn report_usages(source: Seq<char>) -> Seq<(Seq<char>, Option<Seq<char>>, Option<Seq<char>>)> {
    let p = recent_usage_position(source);
    if p < xml_descendants(source).len() {
        usages_of_nodes(source, xml_children(source, xml_descendants(source)[p]))
    } else {
        Seq::empty()
    }
}

/// A usage entry of the report: its timestamp, and where present whether the
/// computer was on mains power (`Ac`) and the charge capacity, as written.
pub struct UsageEntry {
    pub timestamp: String,
    pub on_ac: Option<String>,
    pub charge_capacity: Option<String>,
}

/// The text of an optional string.
pub open spec fn opt_view(s: Option<String>) -> Option<Seq<char>> {
    match s {
        Some(v) => Some(v@),
        None => None,
    }
}

/// The contents of a usage entry.
pub open spec fn usage_view(u: UsageEntry) -> (Seq<char>, Option<Seq<char>>, Option<Seq<char>>) {
    (u.timestamp@, opt_view(u.on_ac), opt_view(u.charge_capacity))
}

/// The contents of each usage entry of `us`.
pub open spec fn usage_views(us: Seq<UsageEntry>) -> Seq<(Seq<char>, Option<Seq<char>>, Option<Seq<char>>)> {
    us.map_values(|u: UsageEntry| usage_view(u))
}

fn owned(s: Option<&str>) -> (r: Option<String>)
    ensures
        opt_view(r) == match s {
            Some(v) => Some(v@),
            None => None,
        },
{
    match s {
        Some(v) => Some(v.to_owned()),
        None => None,
    }
}

/// The position of the first element named `name` at or after position `from`
/// among the nodes `nodes` in document order.
fn find_tagged(d: &BatteryReportDocument, nodes: &Vec<usize>, from: usize, name: &str) -> (found: usize)
    requires
        nodes@ == xml_descendants(d.source_text()),
        from <= nodes.len(),
    ensures
        found <= nodes.len(),
        found as int == first_tagged_from(d.source_text(), from as int, name@),
{
    let mut i = from;
    while i < nodes.len()
        invariant
            nodes@ == xml_descendants(d.source_text()),
            from <= i <= nodes.len(),
            first_tagged_from(d.source_text(), from as int, name@) == first_tagged_from(d.source_text(), i as int, name@),
        decreases nodes.len() - i,
    {
        assert(xml_descendants(d.source_text()).contains(nodes@[i as int]));
        if node_has_tag_name(d, nodes[i], name) {
            return i;
        }
        i = i + 1;
    }
    i
}

fn resume_after(nodes: &Vec<usize>, found: usize) -> (next: usize)
    requires
        found <= nodes.len(),
    ensures
        next <= nodes.len(),
        next == (if found < nodes.len() { found + 1 } else { nodes.len() as int }),
{
    if found < nodes.len() {
        found + 1
    } else {
        nodes.len()
    }
}

/// The usage entries of a parsed battery report, in document order.
pub fn usage_entries(d: &BatteryReportDocument) -> (usages: Vec<UsageEntry>)
    ensures
        usage_views(usages@) == report_usages(d.source_text()),
{
    let ghost source = d.source_text();
    let nodes = node_descendants(d);
    let system = find_tagged(d, &nodes, 0, "SystemInformation");
    let batteries = find_tagged(d, &nodes, resume_after(&nodes, system), "Batteries");
    let recent = find_tagged(d, &nodes, resume_after(&nodes, batteries), "RecentUsage");
    let mut usages: Vec<UsageEntry> = Vec::new();
    if recent >= nodes.len() {
        assert(usage_views(usages@) =~= Seq::<(Seq<char>, Option<Seq<char>>, Option<Seq<char>>)>::empty());
        return usages;
    }
    assert(xml_descendants(source).contains(nodes@[recent as int]));
    let children = node_children(d, nodes[recent]);
    let ghost cs = children@;
    let mut i: usize = 0;
    assert(cs.take(0) =~= Seq::<usize>::empty());
    assert(usage_views(usages@) =~= Seq::<(Seq<char>, Option<Seq<char>>, Option<Seq<char>>)>::empty());
    while i < children.len()
        invariant
            cs == children@,
            source == d.source_text(),
            cs == xml_children(source, nodes@[recent as int]),
            forall|k: int| 0 <= k < cs.len() ==> xml_descendants(source).contains(#[trigger] cs[k]),
            i <= children.len(),
            usage_views(usages@) == usages_of_nodes(source, cs.take(i as int)),
        decreases children.len() - i,
    {
        let c = children[i];
        assert(xml_descendants(source).contains(cs[i as int]));
        assert(cs.take(i + 1).drop_last() =~= cs.take(i as int));
        assert(cs.take(i + 1).last() == c);
        let text = node_text(d, c);
        let keep = match text {
            Some(t) => !str_eq(t, "") && !str_eq(t, "\n    "),
            None => true,
        };
        if keep {
            match node_attribute(d, c, "Timestamp") {
                Some(ts) => {
                    let on_ac = owned(node_attribute(d, c, "Ac"));
                    let capacity = owned(node_attribute(d, c, "ChargeCapacity"));
                    let ghost before = usage_views(usages@);
                    usages.push(UsageEntry { timestamp: ts.to_owned(), on_ac, charge_capacity: capacity });
                    assert(usage_views(usages@) =~= before.push(usage_of_node(source, c)));
                },
                None => {},
            }
        }
        i = i + 1;
    }
    assert(cs.take(children.len() as int) =~= cs);
    usages
}

/// Reads the usage entries of a battery report; none where the text is not
/// well-formed XML.
pub fn battery_report_usages(source: &str) -> (usages: Option<Vec<UsageEntry>>)
    ensures
        usages.is_some() == xml_parses(source@),
        usages matches Some(us) ==> usage_views(us@) == report_usages(source@),
{
    match BatteryReportDocument::parse(source) {
        Some(d) => Some(usage_entries(&d)),
        None => None,
    }
}

/// What a usage entry records where it has both an `Ac` and a `ChargeCapacity`
/// attribute: charging where `Ac` is `1` and discharging otherwise, and the
/// capacity as written.
pub open spec fn usage_reading(u: (Seq<char>, Option<Seq<char>>, Option<Seq<char>>)) -> Option<(ChargeState, Seq<char>)> {
    match (u.1, u.2) {
        (Some(ac), Some(capacity)) => Some((
            if ac == "1"@ { ChargeState::Charging } else { ChargeState::Discharging },
            capacity,
        )),
        _ => None,
    }
}

impl UsageEntry {
    /// The charge state and capacity that this entry records, where it has both
    /// an `Ac` and a `ChargeCapacity` attribute.
    pub fn reading(&self) -> (reading: Option<(ChargeState, String)>)
        ensures
            match usage_reading(usage_view(*self)) {
                Some((state, capacity)) => reading matches Some(r) && r.0 == state && r.1@ == capacity,
                None => reading is None,
            },
    {
        match (&self.on_ac, &self.charge_capacity) {
            (Some(ac), Some(capacity)) => {
                let state = if str_eq(ac.as_str(), "1") {
                    ChargeState::Charging
                } else {
                    ChargeState::Discharging
                };
                Some((state, capacity.clone()))
            },
            _ => None,
        }
    }
}


/// The arguments with which the power configuration tool writes a battery
/// report covering the last `number_of_days` days as XML to `output_path`.
pub open spec fn report_arguments(output_path: Seq<char>, number_of_days: u8) -> Seq<Seq<char>> {
    seq![
        "/batteryreport"@,
        "/output"@,
        output_path,
        "/xml"@,
        "/duration"@,
        decimal_chars(number_of_days as nat),
    ]
}

fn owned_string(s: &str) -> (r: String)
    ensures
        r@ == s@,
{
    s.to_owned()
}

/// The arguments of the command that writes the battery report.
pub fn battery_report_arguments(output_path: &str, number_of_days: u8) -> (args: Vec<String>)
    ensures
        args@.map_values(|a: String| a@) == report_arguments(output_path@, number_of_days),
{
    let mut days = String::new();
    push_decimal(&mut days, number_of_days as u64);
    let mut args: Vec<String> = Vec::new();
    args.push(owned_string("/batteryreport"));
    args.push(owned_string("/output"));
    args.push(owned_string(output_path));
    args.push(owned_string("/xml"));
    args.push(owned_string("/duration"));
    args.push(days);
    assert(args@.map_values(|a: String| a@) =~= report_arguments(output_path@, number_of_days));
    args
}


/// A usage entry with both an `Ac` and a `ChargeCapacity` attribute records a
/// reading whose capacity is the `ChargeCapacity` text and whose state is never
/// unknown: charging exactly where `Ac` is `1`, discharging for any other value
/// (such as `0`). An entry missing either attribute records nothing.
pub proof fn lemma_usage_reading_states(timestamp: Seq<char>, ac: Option<Seq<char>>, capacity: Option<Seq<char>>)
    ensures
        (ac is Some && capacity is Some) <==> usage_reading((timestamp, ac, capacity)) is Some,
        usage_reading((timestamp, ac, capacity)) matches Some(r) ==> {
            &&& r.1 == capacity.unwrap()
            &&& r.0 != ChargeState::Unknown
            &&& (r.0 == ChargeState::Charging <==> ac.unwrap() == "1"@)
            &&& (r.0 == ChargeState::Discharging <==> ac.unwrap() != "1"@)
        },
        ac == Some("0"@) && capacity is Some ==> (usage_reading((timestamp, ac, capacity)) matches Some(r)
            && r.0 == ChargeState::Discharging),
{
    reveal_strlit("0");
    reveal_strlit("1");
    if ac == Some("0"@) {
        assert("0"@[0] != "1"@[0]);
        assert("0"@ != "1"@);
    }
}

} // verus!
