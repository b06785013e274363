//! The record that an extraction fills: one slot for each field of the
//! metadata, every slot a variant of [`Data`].

use vstd::prelude::*;
use vstd::std_specs::convert::IntoSpec;
use crate::text::text_of;

verus! {

/// Where the image of a screenshot is found, and for which locale.
#[derive(Clone, Debug, PartialEq, Eq)]
pub struct SourceImage {
    pub url: Option<String>,
    pub lang: Option<String>,
}

/// One screenshot: its thumbnails and its source image.
#[derive(Clone, Debug, PartialEq, Eq)]
pub struct Screenshot {
    pub thumbnails: Vec<String>,
    pub source_image: SourceImage,
}

/// One cached icon: a file name and, where known, its size.
#[derive(Clone, Debug, PartialEq, Eq)]
pub struct InnerIcon {
    pub name: String,
    pub width: Option<usize>,
    pub height: Option<usize>,
}

/// The content of one slot of the record.
#[derive(Clone, Debug, PartialEq, Eq)]
pub enum Data {
    Type(Option<String>),
    Id(Option<String>),
    Package(Option<String>),
    Name { c: Option<String> },
    Summary { c: Option<String> },
    Description { c: Option<String> },
    DeveloperName { c: Option<String> },
    Screenshots(Vec<Screenshot>),
    Url { homepage: Option<String>, bugtracker: Option<String> },
    Icon { cached: Vec<InnerIcon> },
    Provides { mimetypes: Vec<String>, binaries: Vec<String> },
    ProjectLicense(Option<String>),
    Categories(Vec<String>),
    Keywords(Vec<String>),
}

/// The record: one slot per field.
#[derive(Clone, Debug, PartialEq, Eq)]
pub struct Dep11 {
    pub kind: Data,
    pub id: Data,
    pub package: Data,
    pub name: Data,
    pub summary: Data,
    pub description: Data,
    pub developer_name: Data,
    pub project_license: Data,
    pub categories: Data,
    pub keywords: Data,
    pub url: Data,
    pub icon: Data,
    pub screenshots: Data,
    pub provides: Data,
}

/// The slots of the record, by name.
#[derive(Clone, Copy, Debug, PartialEq, Eq, Structural)]
pub enum Field {
    Kind,
    Id,
    Package,
    Name,
    Summary,
    Description,
    DeveloperName,
    ProjectLicense,
    Categories,
    Keywords,
    Url,
    Icon,
    Screenshots,
    Provides,
}

/// The mathematical value of a [`SourceImage`].
pub ghost struct SourceImageView {
    pub url: Option<Seq<char>>,
    pub lang: Option<Seq<char>>,
}

/// The mathematical value of a [`Screenshot`].
pub ghost struct ScreenshotView {
    pub thumbnails: Seq<Seq<char>>,
    pub source_image: SourceImageView,
}

/// The mathematical value of an [`InnerIcon`].
pub ghost struct IconView {
    pub name: Seq<char>,
    pub width: Option<usize>,
    pub height: Option<usize>,
}

/// The mathematical value of a [`Data`]: the same variants, over sequences.
pub ghost enum DataView {
    Type(Option<Seq<char>>),
    Id(Option<Seq<char>>),
    Package(Option<Seq<char>>),
    Name { c: Option<Seq<char>> },
    Summary { c: Option<Seq<char>> },
    Description { c: Option<Seq<char>> },
    DeveloperName { c: Option<Seq<char>> },
    Screenshots(Seq<ScreenshotView>),
    Url { homepage: Option<Seq<char>>, bugtracker: Option<Seq<char>> },
    Icon { cached: Seq<IconView> },
    Provides { mimetypes: Seq<Seq<char>>, binaries: Seq<Seq<char>> },
    ProjectLicense(Option<Seq<char>>),
    Categories(Seq<Seq<char>>),
    Keywords(Seq<Seq<char>>),
}

/// The mathematical value of a [`Dep11`].
pub ghost struct Dep11View {
    pub kind: DataView,
    pub id: DataView,
    pub package: DataView,
    pub name: DataView,
    pub summary: DataView,
    pub description: DataView,
    pub developer_name: DataView,
    pub project_license: DataView,
    pub categories: DataView,
    pub keywords: DataView,
    pub url: DataView,
    pub icon: DataView,
    pub screenshots: DataView,
    pub provides: DataView,
}

impl View for SourceImage {
    type V = SourceImageView;

    open spec fn view(&self) -> SourceImageView {
        SourceImageView { url: text_of(self.url), lang: text_of(self.lang) }
    }
}

impl View for Screenshot {
    type V = ScreenshotView;

    open spec fn view(&self) -> ScreenshotView {
        ScreenshotView {
            thumbnails: self.thumbnails.deep_view(),
            source_image: self.source_image@,
        }
    }
}

impl DeepView for Screenshot {
    type V = ScreenshotView;

    open spec fn deep_view(&self) -> ScreenshotView {
        self@
    }
}

impl View for InnerIcon {
    type V = IconView;

    open spec fn view(&self) -> IconView {
        IconView { name: self.name@, width: self.width, height: self.height }
    }
}

impl DeepView for InnerIcon {
    type V = IconView;

    open spec fn deep_view(&self) -> IconView {
        self@
    }
}

impl View for Data {
    type V = DataView;

    open spec fn view(&self) -> DataView {
        match *self {
            Data::Type(v) => DataView::Type(text_of(v)),
            Data::Id(v) => DataView::Id(text_of(v)),
            Data::Package(v) => DataView::Package(text_of(v)),
            Data::Name { c } => DataView::Name { c: text_of(c) },
            Data::Summary { c } => DataView::Summary { c: text_of(c) },
            Data::Description { c } => DataView::Description { c: text_of(c) },
            Data::DeveloperName { c } => DataView::DeveloperName { c: text_of(c) },
            Data::Screenshots(v) => DataView::Screenshots(v.deep_view()),
            Data::Url { homepage, bugtracker } => DataView::Url {
                homepage: text_of(homepage),
                bugtracker: text_of(bugtracker),
            },
            Data::Icon { cached } => DataView::Icon { cached: cached.deep_view() },
            Data::Provides { mimetypes, binaries } => DataView::Provides {
                mimetypes: mimetypes.deep_view(),
                binaries: binaries.deep_view(),
            },
            Data::ProjectLicense(v) => DataView::ProjectLicense(text_of(v)),
            Data::Categories(v) => DataView::Categories(v.deep_view()),
            Data::Keywords(v) => DataView::Keywords(v.deep_view()),
        }
    }
}

impl View for Dep11 {
    type V = Dep11View;

    open spec fn view(&self) -> Dep11View {
        Dep11View {
            kind: self.kind@,
            id: self.id@,
            package: self.package@,
            name: self.name@,
            summary: self.summary@,
            description: self.description@,
            developer_name: self.developer_name@,
            project_license: self.project_license@,
            categories: self.categories@,
            keywords: self.keywords@,
            url: self.url@,
            icon: self.icon@,
            screenshots: self.screenshots@,
            provides: self.provides@,
        }
    }
}

/// What a scalar slot holds once `found` is offered to it: what it held
/// before, if anything, else `found`. The first value stays.
pub open spec fn first_of(held: Option<Seq<char>>, found: Option<Seq<char>>) -> Option<Seq<char>> {
    if held is Some {
        held
    } else {
        found
    }
}

impl DataView {
    /// The slot after `found` is offered to it: a scalar slot takes it unless
    /// it holds a value already; a slot of another kind stays as it is.
    pub open spec fn with_text(self, found: Option<Seq<char>>) -> DataView {
        match self {
            DataView::Type(v) => DataView::Type(first_of(v, found)),
            DataView::Id(v) => DataView::Id(first_of(v, found)),
            DataView::Package(v) => DataView::Package(first_of(v, found)),
            DataView::Name { c } => DataView::Name { c: first_of(c, found) },
            DataView::Summary { c } => DataView::Summary { c: first_of(c, found) },
            DataView::Description { c } => DataView::Description { c: first_of(c, found) },
            DataView::DeveloperName { c } => DataView::DeveloperName { c: first_of(c, found) },
            DataView::ProjectLicense(v) => DataView::ProjectLicense(first_of(v, found)),
            _ => self,
        }
    }

    /// The slot after two links are offered to it: each member of a `Url`
    /// slot takes its link unless it holds one already; a slot of another
    /// kind stays as it is.
    pub open spec fn with_links(
        self,
        homepage: Option<Seq<char>>,
        bugtracker: Option<Seq<char>>,
    ) -> DataView {
        match self {
            DataView::Url { homepage: h, bugtracker: b } => DataView::Url {
                homepage: first_of(h, homepage),
                bugtracker: first_of(b, bugtracker),
            },
            _ => self,
        }
    }

    /// Items added at the end of a `Categories` or a `Keywords` slot, in their
    /// order; a slot of another kind stays as it is.
    pub open spec fn with_items(self, items: Seq<Seq<char>>) -> DataView {
        match self {
            DataView::Categories(v) => DataView::Categories(v + items),
            DataView::Keywords(v) => DataView::Keywords(v + items),
            _ => self,
        }
    }

    /// Items added at the end of the binaries of a `Provides` slot; a slot of
    /// another kind stays as it is.
    pub open spec fn with_binaries(self, items: Seq<Seq<char>>) -> DataView {
        match self {
            DataView::Provides { mimetypes, binaries } => DataView::Provides {
                mimetypes,
                binaries: binaries + items,
            },
            _ => self,
        }
    }

    /// Items added at the end of the mimetypes of a `Provides` slot; a slot of
    /// another kind stays as it is.
    pub open spec fn with_mimetypes(self, items: Seq<Seq<char>>) -> DataView {
        match self {
            DataView::Provides { mimetypes, binaries } => DataView::Provides {
                mimetypes: mimetypes + items,
                binaries,
            },
            _ => self,
        }
    }

    /// Screenshots added at the end, in their order; a slot of another kind
    /// stays as it is.
    pub open spec fn with_screenshots(self, shots: Seq<ScreenshotView>) -> DataView {
        match self {
            DataView::Screenshots(v) => DataView::Screenshots(v + shots),
            _ => self,
        }
    }

    /// A screenshot added at the end; a slot of another kind stays as it is.
    pub open spec fn with_screenshot(self, shot: ScreenshotView) -> DataView {
        match self {
            DataView::Screenshots(v) => DataView::Screenshots(v.push(shot)),
            _ => self,
        }
    }

    /// An icon added at the end; a slot of another kind stays as it is.
    pub open spec fn with_icon(self, icon: IconView) -> DataView {
        match self {
            DataView::Icon { cached } => DataView::Icon { cached: cached.push(icon) },
            _ => self,
        }
    }
}

impl Dep11View {
    /// What a slot holds.
    pub open spec fn slot(self, field: Field) -> DataView {
        match field {
            Field::Kind => self.kind,
            Field::Id => self.id,
            Field::Package => self.package,
            Field::Name => self.name,
            Field::Summary => self.summary,
            Field::Description => self.description,
            Field::DeveloperName => self.developer_name,
            Field::ProjectLicense => self.project_license,
            Field::Categories => self.categories,
            Field::Keywords => self.keywords,
            Field::Url => self.url,
            Field::Icon => self.icon,
            Field::Screenshots => self.screenshots,
            Field::Provides => self.provides,
        }
    }

    /// The record in which every scalar is absent and every list is empty.
    pub open spec fn empty() -> Dep11View {
        Dep11View {
            kind: DataView::Type(None),
            id: DataView::Id(None),
            package: DataView::Package(None),
            name: DataView::Name { c: None },
            summary: DataView::Summary { c: None },
            description: DataView::Description { c: None },
            developer_name: DataView::DeveloperName { c: None },
            project_license: DataView::ProjectLicense(None),
            categories: DataView::Categories(Seq::empty()),
            keywords: DataView::Keywords(Seq::empty()),
            url: DataView::Url { homepage: None, bugtracker: None },
            icon: DataView::Icon { cached: Seq::empty() },
            screenshots: DataView::Screenshots(Seq::empty()),
            provides: DataView::Provides { mimetypes: Seq::empty(), binaries: Seq::empty() },
        }
    }

    /// Every slot holds the variant that belongs to it.
    pub open spec fn well_formed(self) -> bool {
        &&& self.kind is Type
        &&& self.id is Id
        &&& self.package is Package
        &&& self.name is Name
        &&& self.summary is Summary
        &&& self.description is Description
        &&& self.developer_name is DeveloperName
        &&& self.project_license is ProjectLicense
        &&& self.categories is Categories
        &&& self.keywords is Keywords
        &&& self.url is Url
        &&& self.icon is Icon
        &&& self.screenshots is Screenshots
        &&& self.provides is Provides
    }
}

/// Puts `found` where nothing is held yet.
fn keep_first(held: &mut Option<String>, found: Option<String>)
    ensures
        text_of(*final(held)) == first_of(text_of(*old(held)), text_of(found)),
{
    if held.is_none() {
        *held = found;
    }
}

impl Data {
    /// Offers a text to a scalar slot, which takes it unless it holds one
    /// already; on a slot of another kind nothing happens.
    pub fn store_text(&mut self, found: Option<String>)
        ensures
            final(self)@ == old(self)@.with_text(text_of(found)),
    {
        match self {
            Data::Type(v) => keep_first(v, found),
            Data::Id(v) => keep_first(v, found),
            Data::Package(v) => keep_first(v, found),
            Data::Name { c } => keep_first(c, found),
            Data::Summary { c } => keep_first(c, found),
            Data::Description { c } => keep_first(c, found),
            Data::DeveloperName { c } => keep_first(c, found),
            Data::ProjectLicense(v) => keep_first(v, found),
            _ => {},
        }
    }

    /// Offers two links to a `Url` slot, each of whose members takes its link
    /// unless it holds one already; on a slot of another kind nothing happens.
    pub fn store_links(&mut self, homepage: Option<String>, bugtracker: Option<String>)
        ensures
            final(self)@ == old(self)@.with_links(text_of(homepage), text_of(bugtracker)),
    {
        match self {
            Data::Url { homepage: h, bugtracker: b } => {
                keep_first(h, homepage);
                keep_first(b, bugtracker);
            },
            _ => {},
        }
    }

    /// Adds items at the end of a `Categories` or a `Keywords` slot; on a
    /// slot of another kind nothing happens.
    pub fn append_items(&mut self, items: Vec<String>)
        ensures
            final(self)@ == old(self)@.with_items(items.deep_view()),
    {
        let mut items = items;
        let ghost added = items.deep_view();
        match self {
            Data::Categories(v) => {
                let ghost before = v.deep_view();
                v.append(&mut items);
                assert(v.deep_view() =~= before + added);
            },
            Data::Keywords(v) => {
                let ghost before = v.deep_view();
                v.append(&mut items);
                assert(v.deep_view() =~= before + added);
            },
            _ => {},
        }
    }

    /// Adds items at the end of the binaries of a `Provides` slot; on a slot
    /// of another kind nothing happens.
    pub fn append_binaries(&mut self, items: Vec<String>)
        ensures
            final(self)@ == old(self)@.with_binaries(items.deep_view()),
    {
        let mut items = items;
        let ghost added = items.deep_view();
        match self {
            Data::Provides { binaries, .. } => {
                let ghost before = binaries.deep_view();
                binaries.append(&mut items);
                assert(binaries.deep_view() =~= before + added);
            },
            _ => {},
        }
    }

    /// Adds items at the end of the mimetypes of a `Provides` slot; on a slot
    /// of another kind nothing happens.
    pub fn append_mimetypes(&mut self, items: Vec<String>)
        ensures
            final(self)@ == old(self)@.with_mimetypes(items.deep_view()),
    {
        let mut items = items;
        let ghost added = items.deep_view();
        match self {
            Data::Provides { mimetypes, .. } => {
                let ghost before = mimetypes.deep_view();
                mimetypes.append(&mut items);
                assert(mimetypes.deep_view() =~= before + added);
            },
            _ => {},
        }
    }

    /// Adds a screenshot to a `Screenshots` slot; on a slot of another kind
    /// nothing happens.
    pub fn push_new_screenshoot(
        &mut self,
        thumbnails: Vec<String>,
        url: Option<String>,
        lang: Option<String>,
    )
        ensures
            final(self)@ == old(self)@.with_screenshot(
                ScreenshotView {
                    thumbnails: thumbnails.deep_view(),
                    source_image: SourceImageView { url: text_of(url), lang: text_of(lang) },
                },
            ),
            !(old(self)@ is Screenshots) ==> *final(self) == *old(self),
    {
        match self {
            Data::Screenshots(vec) => {
                let screenshot = Screenshot { thumbnails, source_image: SourceImage { url, lang } };
                vec.push(screenshot);
                assert(vec.deep_view() =~= (*old(self))->Screenshots_0.deep_view().push(screenshot@));
            },
            _ => {},
        }
    }

    /// Adds an icon of the given file name to an `Icon` slot; on a slot of
    /// another kind nothing happens.
    pub fn push_icon(&mut self, name: String, width: Option<usize>, height: Option<usize>)
        ensures
            final(self)@ == old(self)@.with_icon(IconView { name: name@, width, height }),
            !(old(self)@ is Icon) ==> *final(self) == *old(self),
    {
        match self {
            Data::Icon { cached } => {
                let icon = InnerIcon { name, width, height };
                cached.push(icon);
                assert(cached.deep_view() =~= (*old(self))->cached.deep_view().push(icon@));
            },
            _ => {},
        }
    }

    /// Adds an icon whose file name is `name` turned into a `String`, as the
    /// conversion of `S` gives it; on a slot of another kind nothing happens.
    pub fn push_into_icon<S: Into<String>>(
        &mut self,
        name: S,
        width: Option<usize>,
        height: Option<usize>,
    )
        ensures
            exists|file: String|
                {
                    &&& S::obeys_into_spec() ==> file == name.into_spec()
                    &&& call_ensures(<S as Into<String>>::into, (name,), file)
                    &&& #[trigger] final(self)@ == old(self)@.with_icon(
                        IconView { name: file@, width, height },
                    )
                },
            !(old(self)@ is Icon) ==> *final(self) == *old(self),
    {
        let file: String = name.into();
        self.push_icon(file, width, height);
    }
}

impl Dep11 {
    /// What a slot holds, as a value of the program.
    pub open spec fn held(self, field: Field) -> Data {
        match field {
            Field::Kind => self.kind,
            Field::Id => self.id,
            Field::Package => self.package,
            Field::Name => self.name,
            Field::Summary => self.summary,
            Field::Description => self.description,
            Field::DeveloperName => self.developer_name,
            Field::ProjectLicense => self.project_license,
            Field::Categories => self.categories,
            Field::Keywords => self.keywords,
            Field::Url => self.url,
            Field::Icon => self.icon,
            Field::Screenshots => self.screenshots,
            Field::Provides => self.provides,
        }
    }

    /// A slot of the record.
    pub fn slot(&self, field: Field) -> (data: &Data)
        ensures
            *data == self.held(field),
            data@ == self@.slot(field),
    {
        match field {
            Field::Kind => &self.kind,
            Field::Id => &self.id,
            Field::Package => &self.package,
            Field::Name => &self.name,
            Field::Summary => &self.summary,
            Field::Description => &self.description,
            Field::DeveloperName => &self.developer_name,
            Field::ProjectLicense => &self.project_license,
            Field::Categories => &self.categories,
            Field::Keywords => &self.keywords,
            Field::Url => &self.url,
            Field::Icon => &self.icon,
            Field::Screenshots => &self.screenshots,
            Field::Provides => &self.provides,
        }
    }
}

impl Default for SourceImage {
    fn default() -> (r: SourceImage)
        ensures
            r@ == (SourceImageView { url: None, lang: None }),
    {
        SourceImage { url: None, lang: None }
    }
}

impl Default for Screenshot {
    fn default() -> (r: Screenshot)
        ensures
            r@ == (ScreenshotView {
                thumbnails: Seq::empty(),
                source_image: SourceImageView { url: None, lang: None },
            }),
    {
        let r = Screenshot {
            thumbnails: Vec::new(),
            source_image: SourceImage { url: None, lang: None },
        };
        assert(r.thumbnails.deep_view() =~= Seq::empty());
        r
    }
}

impl Default for InnerIcon {
    fn default() -> (r: InnerIcon)
        ensures
            r@ == (IconView { name: Seq::empty(), width: None, height: None }),
    {
        InnerIcon { name: String::new(), width: None, height: None }
    }
}

impl Default for Dep11 {
    fn default() -> (r: Dep11)
        ensures
            r@ == Dep11View::empty(),
            r@.well_formed(),
    {
        let r = Dep11 {
            kind: Data::Type(None),
            id: Data::Id(None),
            package: Data::Package(None),
            name: Data::Name { c: None },
            summary: Data::Summary { c: None },
            description: Data::Description { c: None },
            developer_name: Data::DeveloperName { c: None },
            project_license: Data::ProjectLicense(None),
            categories: Data::Categories(Vec::new()),
            keywords: Data::Keywords(Vec::new()),
            url: Data::Url { homepage: None, bugtracker: None },
            icon: Data::Icon { cached: Vec::new() },
            screenshots: Data::Screenshots(Vec::new()),
            provides: Data::Provides { mimetypes: Vec::new(), binaries: Vec::new() },
        };
        assert(r.categories@->Categories_0 =~= Seq::empty());
        assert(r.keywords@->Keywords_0 =~= Seq::empty());
        assert(r.icon@->cached =~= Seq::empty());
        assert(r.screenshots@->Screenshots_0 =~= Seq::empty());
        assert(r.provides@->mimetypes =~= Seq::empty());
        assert(r.provides@->binaries =~= Seq::empty());
        r
    }
}

} // verus!
