use vstd::prelude::*;

verus! {

/// Abstract content of one enumerated port: the OS device name, and the
/// USB manufacturer and product strings where the OS reported them.
pub ghost struct PortInfoView {
    pub name: Seq<char>,
    pub manufacturer: Option<Seq<char>>,
    pub product: Option<Seq<char>>,
}

/// Metadata for one attached serial device, as one enumeration poll saw it.
pub struct PortInfo {
    name: String,
    manufacturer: Option<String>,
    product: Option<String>,
}

impl View for PortInfo {
    type V = PortInfoView;

    closed spec fn view(&self) -> PortInfoView {
        PortInfoView {
            name: self.name@,
            manufacturer: self.manufacturer.deep_view(),
            product: self.product.deep_view(),
        }
    }
}

impl PortInfo {
    pub fn new(name: String, manufacturer: Option<String>, product: Option<String>) -> (p: Self)
        ensures
            p@.name == name@,
            p@.manufacturer == manufacturer.deep_view(),
            p@.product == product.deep_view(),
    {
        Self { name, manufacturer, product }
    }

    /// The OS-assigned device identifier, e.g. a path or COM name.
    pub fn name(&self) -> (r: &str)
        ensures
            r@ == self@.name,
    {
        self.name.as_str()
    }

    /// The manufacturer string, or "Unknown" where the OS reported none.
    pub fn manufacturer(&self) -> (r: &str)
        ensures
            (match self@.manufacturer {
                Some(m) => r@ == m,
                None => r@ == "Unknown"@,
            }),
    {
        match &self.manufacturer {
            Some(s) => s.as_str(),
            None => "Unknown",
        }
    }

    /// The product string, or "Unknown" where the OS reported none.
    pub fn product(&self) -> (r: &str)
        ensures
            (match self@.product {
                Some(p) => r@ == p,
                None => r@ == "Unknown"@,
            }),
    {
        match &self.product {
            Some(s) => s.as_str(),
            None => "Unknown",
        }
    }
}

/// Builds the snapshot list from the plain values of one enumeration poll:
/// one `PortInfo` per entry, in the order the OS returned them.
pub fn ports_from_entries(entries: Vec<(String, Option<String>, Option<String>)>) -> (r: Vec<
    PortInfo,
>)
    ensures
        r@.len() == entries@.len(),
        forall|i: int|
            0 <= i < entries@.len() ==> {
                &&& (#[trigger] r@[i])@.name == entries@[i].0@
                &&& r@[i]@.manufacturer == entries@[i].1.deep_view()
                &&& r@[i]@.product == entries@[i].2.deep_view()
            },
{
    let mut r: Vec<PortInfo> = Vec::new();
    let mut i: usize = 0;
    while i < entries.len()
        invariant
            i <= entries@.len(),
            r@.len() == i,
            forall|j: int|
                0 <= j < i ==> {
                    &&& (#[trigger] r@[j])@.name == entries@[j].0@
                    &&& r@[j]@.manufacturer == entries@[j].1.deep_view()
                    &&& r@[j]@.product == entries@[j].2.deep_view()
                },
        decreases entries@.len() - i,
    {
        let e = &entries[i];
        let manufacturer = match &e.1 {
            Some(s) => Some(s.clone()),
            None => None,
        };
        let product = match &e.2 {
            Some(s) => Some(s.clone()),
            None => None,
        };
        r.push(PortInfo::new(e.0.clone(), manufacturer, product));
        i = i + 1;
    }
    r
}

/// Turns the outcome of one OS enumeration query — handed in as plain
/// values by whoever made it — into the snapshot list: an enumeration
/// failure (`None`) degrades to the empty list instead of propagating,
/// and a successful query yields one `PortInfo` per entry, in order.
pub fn ports_from_snapshot(snapshot: Option<Vec<(String, Option<String>, Option<String>)>>) -> (r:
    Vec<PortInfo>)
    ensures
        (match snapshot {
            None => r@.len() == 0,
            Some(entries) => {
                &&& r@.len() == entries@.len()
                &&& forall|i: int|
                    0 <= i < entries@.len() ==> {
                        &&& (#[trigger] r@[i])@.name == entries@[i].0@
                        &&& r@[i]@.manufacturer == entries@[i].1.deep_view()
                        &&& r@[i]@.product == entries@[i].2.deep_view()
                    }
            },
        }),
{
    match snapshot {
        Some(entries) => ports_from_entries(entries),
        None => Vec::new(),
    }
}

} // verus!
