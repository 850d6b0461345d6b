use vstd::prelude::*;

verus! {

/// A decoded field value. Floats are held as their IEEE-754 bit patterns.
#[derive(Debug, Clone)]
pub enum Variant {
    Bool(bool),
    U32(u32),
    I32(i32),
    I16(i16),
    F32(u32),
    U64(u64),
    U8(u8),
    String(String),
    VecXY([u32; 2]),
    VecXYZ([u32; 3]),
    Vec(Vec<i32>),
    FloatVec32(Vec<u32>),
}

/// What a value is, with its text and arrays as sequences.
pub enum VariantView {
    Bool(bool),
    U32(u32),
    I32(i32),
    I16(i16),
    F32(u32),
    U64(u64),
    U8(u8),
    String(Seq<char>),
    VecXY(Seq<u32>),
    VecXYZ(Seq<u32>),
    Vec(Seq<i32>),
    FloatVec32(Seq<u32>),
}

impl View for Variant {
    type V = VariantView;

    open spec fn view(&self) -> VariantView {
        match self {
            Variant::Bool(b) => VariantView::Bool(*b),
            Variant::U32(x) => VariantView::U32(*x),
            Variant::I32(x) => VariantView::I32(*x),
            Variant::I16(x) => VariantView::I16(*x),
            Variant::F32(x) => VariantView::F32(*x),
            Variant::U64(x) => VariantView::U64(*x),
            Variant::U8(x) => VariantView::U8(*x),
            Variant::String(s) => VariantView::String(s@),
            Variant::VecXY(a) => VariantView::VecXY(a@),
            Variant::VecXYZ(a) => VariantView::VecXYZ(a@),
            Variant::Vec(v) => VariantView::Vec(v@),
            Variant::FloatVec32(v) => VariantView::FloatVec32(v@),
        }
    }
}

/// The view of an optional value.
pub open spec fn opt_view(o: Option<Variant>) -> Option<VariantView> {
    match o {
        Some(v) => Some(v@),
        None => None,
    }
}

/// The kinds that a column can hold.
#[derive(Debug, Clone, Copy, PartialEq, Eq, Structural)]
pub enum ColumnKind {
    U32,
    Bool,
    U64,
    F32,
    I32,
    String,
}

/// The column kind of a value, where it has one.
pub open spec fn column_kind_of(v: VariantView) -> Option<ColumnKind> {
    match v {
        VariantView::Bool(_) => Some(ColumnKind::Bool),
        VariantView::I32(_) => Some(ColumnKind::I32),
        VariantView::F32(_) => Some(ColumnKind::F32),
        VariantView::String(_) => Some(ColumnKind::String),
        VariantView::U64(_) => Some(ColumnKind::U64),
        VariantView::U32(_) => Some(ColumnKind::U32),
        _ => None,
    }
}

/// A column of one property's values.
#[derive(Debug, Clone)]
pub enum VarVec {
    U32(Vec<Option<u32>>),
    Bool(Vec<Option<bool>>),
    U64(Vec<Option<u64>>),
    F32(Vec<Option<u32>>),
    I32(Vec<Option<i32>>),
    String(Vec<Option<String>>),
    StringNoNull(Vec<String>),
    U64NoNull(Vec<u64>),
}

pub open spec fn opt_u32(o: Option<u32>) -> Option<VariantView> {
    match o {
        Some(x) => Some(VariantView::U32(x)),
        None => None,
    }
}

pub open spec fn opt_bool(o: Option<bool>) -> Option<VariantView> {
    match o {
        Some(x) => Some(VariantView::Bool(x)),
        None => None,
    }
}

pub open spec fn opt_u64(o: Option<u64>) -> Option<VariantView> {
    match o {
        Some(x) => Some(VariantView::U64(x)),
        None => None,
    }
}

pub open spec fn opt_f32(o: Option<u32>) -> Option<VariantView> {
    match o {
        Some(x) => Some(VariantView::F32(x)),
        None => None,
    }
}

pub open spec fn opt_i32(o: Option<i32>) -> Option<VariantView> {
    match o {
        Some(x) => Some(VariantView::I32(x)),
        None => None,
    }
}

pub open spec fn opt_string(o: Option<String>) -> Option<VariantView> {
    match o {
        Some(x) => Some(VariantView::String(x@)),
        None => None,
    }
}

impl VarVec {
    /// The cells of the column, in order.
    pub open spec fn cells(&self) -> Seq<Option<VariantView>> {
        match self {
            VarVec::U32(v) => v@.map_values(|o: Option<u32>| opt_u32(o)),
            VarVec::Bool(v) => v@.map_values(|o: Option<bool>| opt_bool(o)),
            VarVec::U64(v) => v@.map_values(|o: Option<u64>| opt_u64(o)),
            VarVec::F32(v) => v@.map_values(|o: Option<u32>| opt_f32(o)),
            VarVec::I32(v) => v@.map_values(|o: Option<i32>| opt_i32(o)),
            VarVec::String(v) => v@.map_values(|o: Option<String>| opt_string(o)),
            VarVec::StringNoNull(v) => v@.map_values(
                |s: String| Some(VariantView::String(s@)),
            ),
            VarVec::U64NoNull(v) => v@.map_values(|x: u64| Some(VariantView::U64(x))),
        }
    }

    /// The kind of the column; the columns without nulls hold strings or `u64`s.
    pub open spec fn kind(&self) -> ColumnKind {
        match self {
            VarVec::U32(_) => ColumnKind::U32,
            VarVec::Bool(_) => ColumnKind::Bool,
            VarVec::U64(_) => ColumnKind::U64,
            VarVec::F32(_) => ColumnKind::F32,
            VarVec::I32(_) => ColumnKind::I32,
            VarVec::String(_) => ColumnKind::String,
            VarVec::StringNoNull(_) => ColumnKind::String,
            VarVec::U64NoNull(_) => ColumnKind::U64,
        }
    }

    pub open spec fn accepts_null(&self) -> bool {
        !(self is StringNoNull || self is U64NoNull)
    }

    /// An empty column for values of the kind of `item`.
    pub fn new(item: &Variant) -> (r: Self)
        requires
            column_kind_of(item@) is Some,
        ensures
            r.cells().len() == 0,
            r.kind() == column_kind_of(item@)->Some_0,
            r.accepts_null(),
    {
        let r = match item {
            Variant::Bool(_) => VarVec::Bool(Vec::new()),
            Variant::I32(_) => VarVec::I32(Vec::new()),
            Variant::F32(_) => VarVec::F32(Vec::new()),
            Variant::String(_) => VarVec::String(Vec::new()),
            Variant::U64(_) => VarVec::U64(Vec::new()),
            _ => VarVec::U32(Vec::new()),
        };
        proof {
            assert(r.cells() =~= Seq::<Option<VariantView>>::empty());
        }
        r
    }

    /// Appends a null.
    pub fn push_none(&mut self)
        requires
            old(self).accepts_null(),
        ensures
            final(self).cells() == old(self).cells().push(None),
            final(self).kind() == old(self).kind(),
            final(self).accepts_null(),
    {
        let ghost before = self.cells();
        match self {
            VarVec::I32(f) => f.push(None),
            VarVec::F32(f) => f.push(None),
            VarVec::String(f) => f.push(None),
            VarVec::U32(f) => f.push(None),
            VarVec::U64(f) => f.push(None),
            VarVec::Bool(f) => f.push(None),
            VarVec::U64NoNull(_) => {},
            VarVec::StringNoNull(_) => {},
        }
        proof {
            assert(self.cells() =~= before.push(None));
        }
    }

    /// Appends a value of the column's kind, or a null.
    pub fn push_variant(&mut self, item: Option<Variant>)
        requires
            old(self).accepts_null(),
            item is Some ==> column_kind_of(item->Some_0@) == Some(old(self).kind()),
        ensures
            final(self).cells() == old(self).cells().push(
                opt_view(item),
            ),
            final(self).kind() == old(self).kind(),
            final(self).accepts_null(),
    {
        let ghost before = self.cells();
        let ghost iv = opt_view(item);
        match item {
            Some(Variant::F32(p)) => match self {
                VarVec::F32(f) => f.push(Some(p)),
                _ => {},
            },
            Some(Variant::I32(p)) => match self {
                VarVec::I32(f) => f.push(Some(p)),
                _ => {},
            },
            Some(Variant::String(p)) => match self {
                VarVec::String(f) => f.push(Some(p)),
                _ => {},
            },
            Some(Variant::U32(p)) => match self {
                VarVec::U32(f) => f.push(Some(p)),
                _ => {},
            },
            Some(Variant::U64(p)) => match self {
                VarVec::U64(f) => f.push(Some(p)),
                _ => {},
            },
            Some(Variant::Bool(p)) => match self {
                VarVec::Bool(f) => f.push(Some(p)),
                _ => {},
            },
            None => self.push_none(),
            _ => {},
        }
        proof {
            assert(self.cells() =~= before.push(iv));
        }
    }
}

/// A property's column. Until the first value arrives its kind is unknown and only the
/// nulls are counted; the first value fixes the kind and the nulls before it are written out.
#[derive(Debug, Clone)]
pub struct PropColumn {
    pub data: Option<VarVec>,
    pub num_nones: usize,
}

impl PropColumn {
    /// The cells of the column, in the order pushed.
    pub open spec fn cells(&self) -> Seq<Option<VariantView>> {
        match self.data {
            Some(v) => v.cells(),
            None => Seq::new(self.num_nones as nat, |i: int| None),
        }
    }

    /// The kind, once a value has fixed it.
    pub open spec fn kind(&self) -> Option<ColumnKind> {
        match self.data {
            Some(v) => Some(v.kind()),
            None => None,
        }
    }

    pub open spec fn wf(&self) -> bool {
        &&& self.num_nones <= self.cells().len()
        &&& self.data is Some ==> self.data->Some_0.accepts_null()
    }

    /// Whether a value may be pushed: a null always, a value of a column kind when it agrees
    /// with the kind fixed so far.
    pub open spec fn can_push(&self, item: Option<VariantView>) -> bool {
        match item {
            None => true,
            Some(v) => column_kind_of(v) is Some && (self.kind() is None || self.kind()
                == column_kind_of(v)),
        }
    }

    pub fn new() -> (r: Self)
        ensures
            r.wf(),
            r.cells().len() == 0,
            r.kind() is None,
            r.num_nones == 0,
    {
        let r = PropColumn { data: None, num_nones: 0 };
        proof {
            assert(r.cells() =~= Seq::<Option<VariantView>>::empty());
        }
        r
    }

    /// Appends one cell.
    pub fn push(&mut self, item: Option<Variant>)
        requires
            old(self).wf(),
            old(self).can_push(
                opt_view(item),
            ),
            old(self).num_nones < usize::MAX,
        ensures
            final(self).wf(),
            final(self).cells() == old(self).cells().push(
                opt_view(item),
            ),
            final(self).num_nones == old(self).num_nones + (if item is None {
                1int
            } else {
                0int
            }),
            old(self).kind() is Some ==> final(self).kind() == old(self).kind(),
            item is None ==> final(self).kind() == old(self).kind(),
            old(self).kind() is None && item is Some ==> final(self).kind() == column_kind_of(
                item->Some_0@,
            ),
    {
        let ghost before = self.cells();
        match &item {
            None => {
                self.num_nones = self.num_nones + 1;
            },
            Some(p) => {
                if self.data.is_none() {
                    let mut var_vec = VarVec::new(p);
                    let mut i: usize = 0;
                    while i < self.num_nones
                        invariant
                            i <= self.num_nones,
                            var_vec.cells() == Seq::new(i as nat, |k: int| None::<VariantView>),
                            var_vec.kind() == column_kind_of(p@)->Some_0,
                            var_vec.accepts_null(),
                        decreases self.num_nones - i,
                    {
                        var_vec.push_variant(None);
                        i = i + 1;
                        proof {
                            assert(var_vec.cells() =~= Seq::new(i as nat, |k: int| None::<VariantView>));
                        }
                    }
                    self.data = Some(var_vec);
                }
            },
        }
        let ghost mid = self.cells();
        proof {
            if item is Some {
                assert(mid =~= before);
            } else if self.data is None {
                assert(mid =~= before.push(None));
            }
        }
        if self.data.is_some() {
            let mut v = self.data.take().unwrap();
            v.push_variant(item);
            self.data = Some(v);
        }
    }
}

/// The type code of an event field for a value.
pub fn eventdata_type_from_variant(value: &Option<Variant>) -> (r: i32)
    requires
        value is Some ==> column_kind_of(value->Some_0@) is Some && !(value->Some_0 is U64),
    ensures
        r == match value {
            Some(Variant::String(_)) => 1i32,
            Some(Variant::F32(_)) => 2i32,
            Some(Variant::U32(_)) => 7i32,
            Some(Variant::I32(_)) => 4i32,
            Some(Variant::Bool(_)) => 6i32,
            _ => 99i32,
        },
{
    match value {
        Some(Variant::String(_)) => 1,
        Some(Variant::F32(_)) => 2,
        Some(Variant::U32(_)) => 7,
        Some(Variant::I32(_)) => 4,
        Some(Variant::Bool(_)) => 6,
        _ => 99,
    }
}


/// A copy of a value.
pub fn clone_variant(v: &Variant) -> (r: Variant)
    ensures
        r@ == v@,
{
    match v {
        Variant::Bool(b) => Variant::Bool(*b),
        Variant::U32(x) => Variant::U32(*x),
        Variant::I32(x) => Variant::I32(*x),
        Variant::I16(x) => Variant::I16(*x),
        Variant::F32(x) => Variant::F32(*x),
        Variant::U64(x) => Variant::U64(*x),
        Variant::U8(x) => Variant::U8(*x),
        Variant::String(s) => Variant::String(s.clone()),
        Variant::VecXY(a) => Variant::VecXY(*a),
        Variant::VecXYZ(a) => Variant::VecXYZ(*a),
        Variant::Vec(x) => {
            let mut out: Vec<i32> = Vec::new();
            let mut i: usize = 0;
            while i < x.len()
                invariant
                    i <= x@.len(),
                    out@ == x@.subrange(0, i as int),
                decreases x@.len() - i,
            {
                out.push(x[i]);
                i = i + 1;
                proof {
                    assert(out@ =~= x@.subrange(0, i as int));
                }
            }
            proof {
                assert(x@.subrange(0, x@.len() as int) =~= x@);
            }
            Variant::Vec(out)
        },
        Variant::FloatVec32(x) => {
            let mut out: Vec<u32> = Vec::new();
            let mut i: usize = 0;
            while i < x.len()
                invariant
                    i <= x@.len(),
                    out@ == x@.subrange(0, i as int),
                decreases x@.len() - i,
            {
                out.push(x[i]);
                i = i + 1;
                proof {
                    assert(out@ =~= x@.subrange(0, i as int));
                }
            }
            proof {
                assert(x@.subrange(0, x@.len() as int) =~= x@);
            }
            Variant::FloatVec32(out)
        },
    }
}

impl VarVec {
    pub fn len(&self) -> (r: usize)
        ensures
            r == self.cells().len(),
    {
        match self {
            VarVec::U32(v) => v.len(),
            VarVec::Bool(v) => v.len(),
            VarVec::U64(v) => v.len(),
            VarVec::F32(v) => v.len(),
            VarVec::I32(v) => v.len(),
            VarVec::String(v) => v.len(),
            VarVec::StringNoNull(v) => v.len(),
            VarVec::U64NoNull(v) => v.len(),
        }
    }

    /// The cell at `i`.
    pub fn get(&self, i: usize) -> (r: Option<Variant>)
        requires
            i < self.cells().len(),
        ensures
            opt_view(r) == self.cells()[i as int],
    {
        match self {
            VarVec::U32(v) => match v[i] {
                Some(x) => Some(Variant::U32(x)),
                None => None,
            },
            VarVec::Bool(v) => match v[i] {
                Some(x) => Some(Variant::Bool(x)),
                None => None,
            },
            VarVec::U64(v) => match v[i] {
                Some(x) => Some(Variant::U64(x)),
                None => None,
            },
            VarVec::F32(v) => match v[i] {
                Some(x) => Some(Variant::F32(x)),
                None => None,
            },
            VarVec::I32(v) => match v[i] {
                Some(x) => Some(Variant::I32(x)),
                None => None,
            },
            VarVec::String(v) => match &v[i] {
                Some(x) => Some(Variant::String(x.clone())),
                None => None,
            },
            VarVec::StringNoNull(v) => Some(Variant::String(v[i].clone())),
            VarVec::U64NoNull(v) => Some(Variant::U64(v[i])),
        }
    }
}

impl PropColumn {
    pub fn len(&self) -> (r: usize)
        ensures
            r == self.cells().len(),
    {
        match &self.data {
            Some(v) => v.len(),
            None => self.num_nones,
        }
    }

    /// The cell at `i`.
    pub fn get(&self, i: usize) -> (r: Option<Variant>)
        requires
            i < self.cells().len(),
        ensures
            opt_view(r) == self.cells()[i as int],
    {
        match &self.data {
            Some(v) => v.get(i),
            None => None,
        }
    }

    /// A column holding the given cells, in order. The nulls counted are all the nulls.
    pub fn from_values(items: &Vec<Option<Variant>>) -> (r: Self)
        requires
            uniform_kinds(opt_views(items@)),
            items@.len() < usize::MAX,
        ensures
            r.wf(),
            r.cells() == opt_views(items@),
            r.num_nones <= r.cells().len(),
    {
        let mut col = PropColumn::new();
        let mut i: usize = 0;
        let ghost mut first: int = -1;
        while i < items.len()
            invariant
                i <= items@.len() < usize::MAX,
                col.wf(),
                col.cells() == opt_views(items@.subrange(0, i as int)),
                col.num_nones <= i,
                uniform_kinds(opt_views(items@)),
                first < 0 <==> col.kind() is None,
                first >= 0 ==> first < i && opt_views(items@)[first] is Some && col.kind()
                    == column_kind_of(opt_views(items@)[first]->Some_0),
            decreases items@.len() - i,
        {
            let item = match &items[i] {
                Some(v) => Some(clone_variant(v)),
                None => None,
            };
            proof {
                assert(opt_views(items@)[i as int] == opt_view(item));
                if first >= 0 && item is Some {
                    assert(column_kind_of(opt_views(items@)[first]->Some_0) == column_kind_of(
                        opt_views(items@)[i as int]->Some_0,
                    ));
                }
            }
            let ghost k_before = col.kind();
            col.push(item);
            i = i + 1;
            proof {
                assert(opt_views(items@.subrange(0, i as int)) =~= opt_views(
                    items@.subrange(0, i - 1),
                ).push(opt_view(item)));
                if k_before is None && item is Some {
                    first = i - 1;
                }
            }
        }
        proof {
            assert(items@.subrange(0, items@.len() as int) =~= items@);
        }
        col
    }
}

pub open spec fn opt_views(s: Seq<Option<Variant>>) -> Seq<Option<VariantView>> {
    s.map_values(|o: Option<Variant>| opt_view(o))
}

/// Whether every value in the cells has a column kind, the same for all of them.
pub open spec fn uniform_kinds(s: Seq<Option<VariantView>>) -> bool {
    forall|i: int, j: int|
        0 <= i < s.len() && 0 <= j < s.len() && s[i] is Some && s[j] is Some ==> column_kind_of(
            #[trigger] s[i]->Some_0,
        ) is Some && column_kind_of(s[i]->Some_0) == column_kind_of(#[trigger] s[j]->Some_0)
}

/// The rows of a table given by its `n`-long columns: row `i` holds cell `i` of each column.
pub open spec fn transpose(m: Seq<Seq<Option<VariantView>>>, n: nat) -> Seq<
    Seq<Option<VariantView>>,
> {
    Seq::new(n, |i: int| Seq::new(m.len(), |j: int| m[j][i]))
}

/// Whether every inner sequence is `n` long.
pub open spec fn rectangular(m: Seq<Seq<Option<VariantView>>>, n: nat) -> bool {
    forall|j: int| 0 <= j < m.len() ==> #[trigger] m[j].len() == n
}

pub open spec fn columns_cells(cols: Seq<PropColumn>) -> Seq<Seq<Option<VariantView>>> {
    cols.map_values(|c: PropColumn| c.cells())
}

pub open spec fn rows_cells(rows: Seq<Vec<Option<Variant>>>) -> Seq<Seq<Option<VariantView>>> {
    rows.map_values(|r: Vec<Option<Variant>>| opt_views(r@))
}

/// Turning columns into rows and back gives the columns again: a table of `m.len()`
/// columns, each `n` long, is its transpose transposed.
pub proof fn lemma_transpose_involutive(m: Seq<Seq<Option<VariantView>>>, n: nat)
    requires
        rectangular(m, n),
    ensures
        rectangular(transpose(m, n), m.len()),
        transpose(transpose(m, n), m.len()) == m,
{
    let t = transpose(m, n);
    assert forall|i: int| 0 <= i < t.len() implies #[trigger] t[i].len() == m.len() by {}
    let tt = transpose(t, m.len());
    assert forall|j: int| 0 <= j < m.len() implies #[trigger] tt[j] == m[j] by {
        assert(tt[j] =~= m[j]);
    }
    assert(tt =~= m);
}

/// Rows of `n` cells from columns of `n` cells (struct of arrays to array of structs).
pub fn soa_to_aos(cols: &Vec<PropColumn>, n: usize) -> (r: Vec<Vec<Option<Variant>>>)
    requires
        rectangular(columns_cells(cols@), n as nat),
    ensures
        rows_cells(r@) == transpose(columns_cells(cols@), n as nat),
{
    let ghost m = columns_cells(cols@);
    let mut rows: Vec<Vec<Option<Variant>>> = Vec::new();
    let mut i: usize = 0;
    while i < n
        invariant
            i <= n,
            m == columns_cells(cols@),
            rectangular(m, n as nat),
            rows_cells(rows@) == transpose(m, n as nat).subrange(0, i as int),
        decreases n - i,
    {
        let mut row: Vec<Option<Variant>> = Vec::new();
        let mut j: usize = 0;
        while j < cols.len()
            invariant
                i < n,
                j <= cols@.len(),
                m == columns_cells(cols@),
                rectangular(m, n as nat),
                opt_views(row@) == Seq::new(j as nat, |jj: int| m[jj][i as int]),
            decreases cols@.len() - j,
        {
            assert(m[j as int] == cols@[j as int].cells());
            assert(m[j as int].len() == n);
            let cell = cols[j].get(i);
            let ghost before = row@;
            row.push(cell);
            proof {
                assert(opt_views(row@) =~= opt_views(before).push(opt_view(cell)));
            }
            j = j + 1;
            proof {
                assert(opt_views(row@) =~= Seq::new(j as nat, |jj: int| m[jj][i as int]));
            }
        }
        let ghost rbefore = rows@;
        let ghost rv = opt_views(row@);
        proof {
            assert(m.len() == cols@.len());
            assert(rv =~= transpose(m, n as nat)[i as int]);
        }
        rows.push(row);
        proof {
            assert(rows_cells(rows@) =~= rows_cells(rbefore).push(rv));
        }
        i = i + 1;
        proof {
            assert(rows_cells(rows@) =~= transpose(m, n as nat).subrange(0, i as int));
        }
    }
    proof {
        assert(transpose(m, n as nat).subrange(0, n as int) =~= transpose(m, n as nat));
    }
    rows
}

/// Columns of `rows.len()` cells from rows of `width` cells (array of structs to struct of
/// arrays).
pub fn aos_to_soa(rows: &Vec<Vec<Option<Variant>>>, width: usize) -> (r: Vec<PropColumn>)
    requires
        rectangular(rows_cells(rows@), width as nat),
        rows@.len() < usize::MAX,
        forall|j: int| 0 <= j < width ==> uniform_kinds(#[trigger] transpose(rows_cells(rows@), width as nat)[j]),
    ensures
        columns_cells(r@) == transpose(rows_cells(rows@), width as nat),
        forall|j: int| 0 <= j < r@.len() ==> #[trigger] r@[j].wf(),
{
    let ghost m = rows_cells(rows@);
    let ghost t = transpose(m, width as nat);
    let mut cols: Vec<PropColumn> = Vec::new();
    let mut j: usize = 0;
    while j < width
        invariant
            j <= width,
            m == rows_cells(rows@),
            t == transpose(m, width as nat),
            rectangular(m, width as nat),
            rows@.len() < usize::MAX,
            forall|jj: int| 0 <= jj < width ==> uniform_kinds(#[trigger] t[jj]),
            columns_cells(cols@) == t.subrange(0, j as int),
            forall|k: int| 0 <= k < cols@.len() ==> #[trigger] cols@[k].wf(),
        decreases width - j,
    {
        let mut cells: Vec<Option<Variant>> = Vec::new();
        let mut i: usize = 0;
        while i < rows.len()
            invariant
                j < width,
                i <= rows@.len(),
                m == rows_cells(rows@),
                rectangular(m, width as nat),
                opt_views(cells@) == Seq::new(i as nat, |ii: int| m[ii][j as int]),
            decreases rows@.len() - i,
        {
            assert(m[i as int] == opt_views(rows@[i as int]@));
            assert(m[i as int].len() == width);
            let cell = match &rows[i][j] {
                Some(v) => Some(clone_variant(v)),
                None => None,
            };
            proof {
                assert(opt_view(cell) == m[i as int][j as int]);
            }
            let ghost cb = cells@;
            cells.push(cell);
            proof {
                assert(opt_views(cells@) =~= opt_views(cb).push(opt_view(cell)));
            }
            i = i + 1;
            proof {
                assert(opt_views(cells@) =~= Seq::new(i as nat, |ii: int| m[ii][j as int]));
            }
        }
        proof {
            assert(opt_views(cells@) =~= t[j as int]);
        }
        let col = PropColumn::from_values(&cells);
        let ghost cbefore = cols@;
        cols.push(col);
        proof {
            assert(columns_cells(cols@) =~= columns_cells(cbefore).push(t[j as int]));
        }
        j = j + 1;
        proof {
            assert(columns_cells(cols@) =~= t.subrange(0, j as int));
        }
    }
    proof {
        assert(t.subrange(0, width as int) =~= t);
    }
    cols
}


/// The values that fit in an `i32`, in order.
pub open spec fn fitting_i32(v: Seq<i64>) -> Seq<i32>
    decreases v.len(),
{
    if v.len() == 0 {
        Seq::empty()
    } else if i32::MIN <= v.last() <= i32::MAX {
        fitting_i32(v.drop_last()).push(v.last() as i32)
    } else {
        fitting_i32(v.drop_last())
    }
}

/// Keeps the values that convert to the narrower type, dropping the others.
pub fn filter_to_vec(v: &Vec<i64>) -> (r: Vec<i32>)
    ensures
        r@ == fitting_i32(v@),
{
    let mut out: Vec<i32> = Vec::new();
    let mut i: usize = 0;
    while i < v.len()
        invariant
            i <= v@.len(),
            out@ == fitting_i32(v@.subrange(0, i as int)),
        decreases v@.len() - i,
    {
        proof {
            assert(v@.subrange(0, i + 1).drop_last() =~= v@.subrange(0, i as int));
        }
        let x = v[i];
        if x >= i32::MIN as i64 && x <= i32::MAX as i64 {
            out.push(x as i32);
        }
        i = i + 1;
    }
    proof {
        assert(v@.subrange(0, v@.len() as int) =~= v@);
    }
    out
}

} // verus!
