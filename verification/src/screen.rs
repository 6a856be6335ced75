use vstd::prelude::*;
use vstd::pervasive::VecAdditionalExecFns;
use crate::stream::{
    ExtendedFieldAttribute, FieldAttribute, WriteCommand, WriteCommandCode, WCC, WriteOrder,
    OrderView, BufferAddressCalculator, AID, IncomingRecord, StreamFormatError,
};

verus! {

/// A cell position: row and column on the screen.
#[derive(Clone, Copy, Debug, PartialEq, Eq, Structural)]
pub struct Address {
    pub row: u16,
    pub col: u16,
}

/// Field content: read-only text, or a read-write slot that is filled
/// in from the client's reply.
#[derive(Clone, Debug)]
pub enum FieldData {
    RO(String),
    RW(String),
}

impl FieldData {
    /// The text this slot holds.
    pub open spec fn spec_text(&self) -> Seq<char> {
        match self {
            FieldData::RO(s) => s@,
            FieldData::RW(s) => s@,
        }
    }

    /// Whether this slot is read-only.
    pub open spec fn spec_is_ro(&self) -> bool {
        self is RO
    }

    /// Borrow the text this slot holds.
    pub fn as_ref(&self) -> (r: &str)
        ensures
            r@ == self.spec_text(),
    {
        match self {
            FieldData::RO(s) => s.as_str(),
            FieldData::RW(s) => s.as_str(),
        }
    }
}

/// One positioned field of a screen.
#[derive(Clone, Debug)]
pub struct Field {
    pub address: Address,
    pub attrs: Vec<ExtendedFieldAttribute>,
    pub data: FieldData,
}

/// The mathematical shape of a field.
pub struct FieldView {
    pub row: u16,
    pub col: u16,
    pub attrs: Seq<ExtendedFieldAttribute>,
    pub ro: bool,
    pub text: Seq<char>,
}

impl View for Field {
    type V = FieldView;

    open spec fn view(&self) -> FieldView {
        FieldView {
            row: self.address.row,
            col: self.address.col,
            attrs: self.attrs@,
            ro: self.data.spec_is_ro(),
            text: self.data.spec_text(),
        }
    }
}

impl DeepView for Field {
    type V = FieldView;

    open spec fn deep_view(&self) -> FieldView {
        self.view()
    }
}

impl Field {
    /// An empty read-only field at the given cell.
    pub fn at(row: u16, col: u16) -> (f: Field)
        ensures
            f@ == (FieldView {
                row,
                col,
                attrs: Seq::<ExtendedFieldAttribute>::empty(),
                ro: true,
                text: Seq::<char>::empty(),
            }),
    {
        Field {
            address: Address { row, col },
            attrs: Vec::new(),
            data: FieldData::RO(String::new()),
        }
    }

    /// This field with read-only text.
    pub fn ro_text(self, text: &str) -> (f: Field)
        ensures
            f@ == (FieldView {
                row: self@.row,
                col: self@.col,
                attrs: self@.attrs,
                ro: true,
                text: text@,
            }),
    {
        Field { address: self.address, attrs: self.attrs, data: FieldData::RO(text.to_owned()) }
    }

    /// This field with a read-write slot holding the given initial text.
    pub fn rw_text(self, text: &str) -> (f: Field)
        ensures
            f@ == (FieldView {
                row: self@.row,
                col: self@.col,
                attrs: self@.attrs,
                ro: false,
                text: text@,
            }),
    {
        Field { address: self.address, attrs: self.attrs, data: FieldData::RW(text.to_owned()) }
    }

    /// This field with one more extended attribute.
    pub fn with_attr(self, attr: ExtendedFieldAttribute) -> (f: Field)
        ensures
            f@ == (FieldView {
                row: self@.row,
                col: self@.col,
                attrs: self@.attrs.push(attr),
                ro: self@.ro,
                text: self@.text,
            }),
    {
        let mut attrs = self.attrs;
        attrs.push(attr);
        Field { address: self.address, attrs, data: self.data }
    }
}

/// What the client's reply reports: the cursor cell and the key that
/// sent the record.
#[derive(Clone, Copy, Debug, PartialEq, Eq, Structural)]
pub struct Response {
    pub address: Address,
    pub aid: AID,
}

/// Why presenting a screen failed.
#[derive(Clone, Copy, Debug)]
pub enum ScreenError {
    /// The transport failed; the session is no longer usable.
    IoError { context: &'static str },
    /// The reply did not parse; the record is dropped and the session
    /// stays usable.
    StreamError { source: StreamFormatError },
}

/// A field attribute entry with the PROTECTED flag forced to `ro`;
/// every other attribute passes through.
pub open spec fn spec_apply_protection(a: ExtendedFieldAttribute, ro: bool) -> ExtendedFieldAttribute {
    match a {
        ExtendedFieldAttribute::FieldAttribute(fa) => ExtendedFieldAttribute::FieldAttribute(
            fa.spec_with_protected(ro),
        ),
        x => x,
    }
}

/// The attribute list a field is presented with: every FieldAttribute
/// entry gets its PROTECTED flag set exactly when the field is
/// read-only, and a list without one gets a fresh entry at the front.
pub open spec fn spec_present_attrs(attrs: Seq<ExtendedFieldAttribute>, ro: bool) -> Seq<
    ExtendedFieldAttribute,
> {
    if exists|i: int| 0 <= i < attrs.len() && attrs[i] is FieldAttribute {
        attrs.map_values(|a: ExtendedFieldAttribute| spec_apply_protection(a, ro))
    } else {
        seq![
            ExtendedFieldAttribute::FieldAttribute(
                FieldAttribute { bits: if ro { 0x20 } else { 0x00 } },
            ),
        ] + attrs
    }
}

/// The four orders that place one field: set the buffer address, start
/// the field with its attributes, send its text, and close the gap with
/// a protected StartField.
pub open spec fn spec_field_orders(f: FieldView, width: u16) -> Seq<OrderView> {
    seq![
        OrderView::SetBufferAddress((f.row * width + f.col) as u16),
        OrderView::StartFieldExtended(spec_present_attrs(f.attrs, f.ro)),
        OrderView::SendText(f.text),
        OrderView::StartField(FieldAttribute { bits: 0x20 }),
    ]
}

/// The order stream that presents a whole field list, in declared
/// order.
pub open spec fn spec_compile_fields(fs: Seq<FieldView>, width: u16) -> Seq<OrderView>
    decreases fs.len(),
{
    if fs.len() == 0 {
        Seq::empty()
    } else {
        spec_field_orders(fs[0], width) + spec_compile_fields(fs.skip(1), width)
    }
}

proof fn lemma_compile_fields_push(fs: Seq<FieldView>, f: FieldView, width: u16)
    ensures
        spec_compile_fields(fs.push(f), width) == spec_compile_fields(fs, width)
            + spec_field_orders(f, width),
    decreases fs.len(),
{
    if fs.len() == 0 {
        assert(fs.push(f).skip(1) =~= Seq::<FieldView>::empty());
        assert(spec_compile_fields(Seq::<FieldView>::empty(), width) == Seq::<OrderView>::empty());
        assert(fs.push(f)[0] == f);
        assert(spec_compile_fields(fs.push(f), width) =~= spec_compile_fields(fs, width)
            + spec_field_orders(f, width));
    } else {
        assert(fs.push(f).skip(1) =~= fs.skip(1).push(f));
        lemma_compile_fields_push(fs.skip(1), f, width);
        assert(fs.push(f)[0] == fs[0]);
        assert(spec_compile_fields(fs.push(f), width) == spec_field_orders(fs[0], width)
            + (spec_compile_fields(fs.skip(1), width) + spec_field_orders(f, width)));
        assert(spec_compile_fields(fs.push(f), width) =~= spec_compile_fields(fs, width)
            + spec_field_orders(f, width));
    }
}

/// Copy an attribute list element by element.
fn copy_attrs(v: &Vec<ExtendedFieldAttribute>) -> (r: Vec<ExtendedFieldAttribute>)
    ensures
        r@ == v@,
{
    let mut r: Vec<ExtendedFieldAttribute> = Vec::new();
    let mut q: usize = 0;
    while q < v.len()
        invariant
            q <= v@.len(),
            r@ == v@.take(q as int),
        decreases v@.len() - q,
    {
        r.push(v[q]);
        proof {
            assert(r@ =~= v@.take(q + 1 as int));
        }
        q = q + 1;
    }
    proof {
        assert(v@.take(v@.len() as int) =~= v@);
    }
    r
}

/// A declarative screen: an ordered list of positioned fields.
pub struct Screen {
    pub fields: Vec<Field>,
}

/// Every field lies on the screen.
pub open spec fn spec_fields_in_range(fs: Seq<FieldView>, acalc: BufferAddressCalculator) -> bool {
    forall|i: int| 0 <= i < fs.len() ==> (#[trigger] fs[i]).row < acalc.height && fs[i].col
        < acalc.width
}

impl Screen {
    /// Compile the field list into the EraseWrite command that paints
    /// it: reset modified-data tags, restore the keyboard, and place
    /// each field in declared order.
    pub fn compile(&self, acalc: BufferAddressCalculator) -> (cmd: WriteCommand)
        requires
            acalc.spec_wf(),
            spec_fields_in_range(self.fields.deep_view(), acalc),
        ensures
            cmd.command == WriteCommandCode::EraseWrite,
            cmd.wcc == (WCC { bits: 0x03 }),
            cmd.orders.deep_view() == spec_compile_fields(self.fields.deep_view(), acalc.width),
    {
        let mut orders: Vec<WriteOrder> = Vec::new();
        let mut i: usize = 0;
        while i < self.fields.len()
            invariant
                i <= self.fields@.len(),
                acalc.spec_wf(),
                spec_fields_in_range(self.fields.deep_view(), acalc),
                orders.deep_view() == spec_compile_fields(
                    self.fields.deep_view().take(i as int),
                    acalc.width,
                ),
            decreases self.fields@.len() - i,
        {
            let field = &self.fields[i];
            let ghost fv: FieldView = field.deep_view();
            let ghost before: Seq<OrderView> = orders.deep_view();
            proof {
                assert(self.fields.deep_view()[i as int] == fv);
                assert(fv.row < acalc.height && fv.col < acalc.width);
            }
            let addr: u16 = acalc.encode_address(field.address.row, field.address.col);

            let ro: bool = match &field.data {
                FieldData::RO(_) => true,
                FieldData::RW(_) => false,
            };

            let mut fattrs: Vec<ExtendedFieldAttribute> = Vec::new();
            let mut have_fa: bool = false;
            let mut j: usize = 0;
            while j < field.attrs.len()
                invariant
                    j <= field.attrs@.len(),
                    fattrs@ == field.attrs@.take(j as int).map_values(
                        |a: ExtendedFieldAttribute| spec_apply_protection(a, ro),
                    ),
                    have_fa == exists|q: int|
                        0 <= q < j && field.attrs@[q] is FieldAttribute,
                decreases field.attrs@.len() - j,
            {
                let ghost prevattrs: Seq<ExtendedFieldAttribute> = fattrs@;
                match field.attrs[j] {
                    ExtendedFieldAttribute::FieldAttribute(fa) => {
                        fattrs.push(ExtendedFieldAttribute::FieldAttribute(
                            fa.with_protected(ro),
                        ));
                        have_fa = true;
                    },
                    a => {
                        fattrs.push(a);
                    },
                }
                proof {
                    assert(field.attrs@.take(j + 1 as int) =~= field.attrs@.take(
                        j as int,
                    ).push(field.attrs@[j as int]));
                    assert(fattrs@ =~= field.attrs@.take(j + 1 as int).map_values(
                        |a: ExtendedFieldAttribute| spec_apply_protection(a, ro),
                    ));
                }
                j = j + 1;
            }
            proof {
                assert(field.attrs@.take(field.attrs@.len() as int) =~= field.attrs@);
            }
            if !have_fa {
                proof {
                    assert(forall|q: int| 0 <= q < field.attrs@.len()
                        ==> !(#[trigger] field.attrs@[q] is FieldAttribute));
                    assert(fattrs@ =~= field.attrs@);
                }
                let base: FieldAttribute = if ro {
                    FieldAttribute { bits: 0x20 }
                } else {
                    FieldAttribute { bits: 0x00 }
                };
                fattrs.insert(0, ExtendedFieldAttribute::FieldAttribute(base));
                proof {
                    assert(fattrs@ =~= spec_present_attrs(fv.attrs, ro));
                }
            } else {
                proof {
                    assert(fattrs@ =~= spec_present_attrs(fv.attrs, ro));
                }
            }

            orders.push(WriteOrder::SetBufferAddress(addr));
            orders.push(WriteOrder::StartFieldExtended(fattrs));
            orders.push(WriteOrder::SendText(field.data.as_ref().to_owned()));
            orders.push(WriteOrder::StartField(FieldAttribute { bits: 0x20 }));

            proof {
                assert(fv.ro == ro);
                assert(orders.deep_view() =~= before + spec_field_orders(fv, acalc.width));
                lemma_compile_fields_push(
                    self.fields.deep_view().take(i as int),
                    fv,
                    acalc.width,
                );
                assert(self.fields.deep_view().take(i as int).push(fv)
                    =~= self.fields.deep_view().take(i + 1 as int));
            }
            i = i + 1;
        }
        proof {
            assert(self.fields.deep_view().take(self.fields@.len() as int)
                =~= self.fields.deep_view());
        }
        WriteCommand { command: WriteCommandCode::EraseWrite, wcc: WCC { bits: 0x03 }, orders }
    }
}

/// The field list after one SendText seen at running address `addr`:
/// every read-write field whose cell sits just before the text (the
/// field attribute itself occupies one cell) takes the text.
pub open spec fn spec_apply_text(
    fs: Seq<FieldView>,
    addr: u16,
    txt: Seq<char>,
    width: u16,
) -> Seq<FieldView> {
    fs.map_values(
        |f: FieldView|
            if addr >= 1 && f.row * width + f.col == addr - 1 && !f.ro {
                FieldView { row: f.row, col: f.col, attrs: f.attrs, ro: f.ro, text: txt }
            } else {
                f
            },
    )
}

/// The field list after walking an inbound order stream with a running
/// buffer address: SetBufferAddress moves the address, SendText fills
/// the read-write field at the preceding cell, and every other order is
/// ignored.
pub open spec fn spec_apply_orders(
    fs: Seq<FieldView>,
    orders: Seq<OrderView>,
    addr: u16,
    width: u16,
) -> Seq<FieldView>
    decreases orders.len(),
{
    if orders.len() == 0 {
        fs
    } else {
        match orders[0] {
            OrderView::SetBufferAddress(a) => spec_apply_orders(fs, orders.skip(1), a, width),
            OrderView::SendText(t) => spec_apply_orders(
                spec_apply_text(fs, addr, t, width),
                orders.skip(1),
                addr,
                width,
            ),
            _ => spec_apply_orders(fs, orders.skip(1), addr, width),
        }
    }
}

impl Screen {
    /// Walk a parsed reply and copy each SendText into the read-write
    /// field at the cell before it; report the cursor cell and the
    /// attention identifier. The running address starts at the
    /// out-of-screen marker 0xFFFF, so text before any SetBufferAddress
    /// lands nowhere.
    pub fn apply_response(
        &mut self,
        incoming: &IncomingRecord,
        acalc: BufferAddressCalculator,
    ) -> (resp: Response)
        requires
            acalc.spec_wf(),
            spec_fields_in_range(old(self).fields.deep_view(), acalc),
        ensures
            final(self).fields.deep_view() == spec_apply_orders(
                old(self).fields.deep_view(),
                incoming@.orders,
                0xFFFF,
                acalc.width,
            ),
            resp.aid == incoming.aid,
            resp.address.row == incoming.addr as int / acalc.width as int,
            resp.address.col == incoming.addr as int % acalc.width as int,
    {
        let ghost orig: Seq<FieldView> = self.fields.deep_view();
        let ghost all_orders: Seq<OrderView> = incoming.orders.deep_view();
        proof {
            assert(all_orders.skip(0) =~= all_orders);
        }
        let mut addr: u16 = 0xFFFF;
        let mut i: usize = 0;
        while i < incoming.orders.len()
            invariant
                i <= incoming.orders@.len(),
                all_orders == incoming.orders.deep_view(),
                acalc.spec_wf(),
                spec_fields_in_range(self.fields.deep_view(), acalc),
                self.fields@.len() == orig.len(),
                forall|q: int| 0 <= q < orig.len() ==> {
                    let f = #[trigger] self.fields.deep_view()[q];
                    f.row == orig[q].row && f.col == orig[q].col && f.attrs == orig[q].attrs
                        && f.ro == orig[q].ro
                },
                spec_apply_orders(
                    self.fields.deep_view(),
                    all_orders.skip(i as int),
                    addr,
                    acalc.width,
                ) == spec_apply_orders(orig, all_orders, 0xFFFF, acalc.width),
            decreases incoming.orders@.len() - i,
        {
            let ghost fs_before: Seq<FieldView> = self.fields.deep_view();
            proof {
                assert(all_orders.skip(i as int)[0] == all_orders[i as int]);
                assert(all_orders.skip(i as int).skip(1) =~= all_orders.skip(i + 1 as int));
            }
            match &incoming.orders[i] {
                WriteOrder::SetBufferAddress(a) => {
                    addr = *a;
                },
                WriteOrder::SendText(text) => {
                    let ghost txt: Seq<char> = text@;
                    let mut j: usize = 0;
                    while j < self.fields.len()
                        invariant
                            j <= self.fields@.len(),
                            acalc.spec_wf(),
                            spec_fields_in_range(fs_before, acalc),
                            self.fields@.len() == fs_before.len(),
                            text@ == txt,
                            forall|q: int| j <= q < fs_before.len()
                                ==> #[trigger] self.fields.deep_view()[q] == fs_before[q],
                            forall|q: int| 0 <= q < j ==> #[trigger] self.fields.deep_view()[q]
                                == spec_apply_text(fs_before, addr, txt, acalc.width)[q],
                        decreases self.fields@.len() - j,
                    {
                        let fld = &self.fields[j];
                        proof {
                            assert(self.fields.deep_view()[j as int] == fs_before[j as int]);
                            assert(fs_before[j as int].row < acalc.height
                                && fs_before[j as int].col < acalc.width);
                            assert(fld.deep_view() == fs_before[j as int]);
                        }
                        let enc: u16 = acalc.encode_address(fld.address.row, fld.address.col);
                        let is_rw: bool = match &fld.data {
                            FieldData::RW(_) => true,
                            FieldData::RO(_) => false,
                        };
                        if addr >= 1 && enc == addr - 1 && is_rw {
                            let row: u16 = fld.address.row;
                            let col: u16 = fld.address.col;
                            let attrs: Vec<ExtendedFieldAttribute> = copy_attrs(&self.fields[j].attrs);
                            let ghost dv_pre: Seq<FieldView> = self.fields.deep_view();
                            let replacement = Field {
                                address: Address { row, col },
                                attrs,
                                data: FieldData::RW(text.clone()),
                            };
                            proof {
                                assert(replacement.deep_view() == (FieldView {
                                    row: fs_before[j as int].row,
                                    col: fs_before[j as int].col,
                                    attrs: fs_before[j as int].attrs,
                                    ro: false,
                                    text: txt,
                                }));
                            }
                            self.fields.set(j, replacement);
                            proof {
                                assert(self.fields.deep_view() =~= dv_pre.update(
                                    j as int,
                                    replacement.deep_view(),
                                ));
                            }
                        }
                        proof {
                            let f = fs_before[j as int];
                            assert(spec_apply_text(fs_before, addr, txt, acalc.width)[j as int]
                                == (if addr >= 1 && f.row * acalc.width + f.col == addr - 1
                                    && !f.ro {
                                    FieldView {
                                        row: f.row,
                                        col: f.col,
                                        attrs: f.attrs,
                                        ro: f.ro,
                                        text: txt,
                                    }
                                } else {
                                    f
                                }));
                            assert(self.fields.deep_view()[j as int] == spec_apply_text(
                                fs_before,
                                addr,
                                txt,
                                acalc.width,
                            )[j as int]);
                        }
                        j = j + 1;
                    }
                    proof {
                        assert(self.fields.deep_view() =~= spec_apply_text(
                            fs_before,
                            addr,
                            txt,
                            acalc.width,
                        ));
                    }
                },
                _ => {},
            }
            i = i + 1;
        }
        proof {
            assert(all_orders.skip(i as int) =~= Seq::<OrderView>::empty());
        }
        let (row, col) = acalc.decode_address(incoming.addr);
        Response { address: Address { row, col }, aid: incoming.aid }
    }
}

} // verus!
