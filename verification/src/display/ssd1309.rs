//! SSD1309 OLED controller protocol: the bus steps that initialise the
//! panel, push a frame page by page, set the contrast and put the panel to
//! sleep. Page addressing keeps every data write at 128 bytes, below the
//! transfer size that some I2C controllers refuse.

use vstd::prelude::*;

use super::framebuffer::Framebuffer;

verus! {

/// One step of talking to the controller.
pub enum BusStep {
    /// A command write carrying these bytes.
    Command(Vec<u8>),
    /// A display RAM data write carrying these bytes.
    Data(Vec<u8>),
    /// A pause of this many milliseconds.
    PauseMs(u64),
}

/// A bus step with its bytes as a sequence.
pub enum StepView {
    Command(Seq<u8>),
    Data(Seq<u8>),
    PauseMs(u64),
}

impl View for BusStep {
    type V = StepView;

    open spec fn view(&self) -> StepView {
        match self {
            BusStep::Command(b) => StepView::Command(b@),
            BusStep::Data(b) => StepView::Data(b@),
            BusStep::PauseMs(ms) => StepView::PauseMs(*ms),
        }
    }
}

/// Steps by their views.
pub open spec fn steps_view(steps: Seq<BusStep>) -> Seq<StepView> {
    steps.map_values(|s: BusStep| s@)
}

/// Power-up sequence: display off, clock divide, multiplex 64, offset 0,
/// start line 0, charge pump on, DC-DC on, a 100 ms pause, page
/// addressing, segment remap, COM scan reversed, COM pins, contrast 0xCF,
/// pre-charge, VCOMH level, resume from RAM, normal (not inverted), display on.
pub open spec fn init_script() -> Seq<StepView> {
    seq![
        StepView::Command(seq![0xAEu8]),
        StepView::Command(seq![0xD5u8, 0x80u8]),
        StepView::Command(seq![0xA8u8, 0x3Fu8]),
        StepView::Command(seq![0xD3u8, 0x00u8]),
        StepView::Command(seq![0x40u8]),
        StepView::Command(seq![0x8Du8, 0x14u8]),
        StepView::Command(seq![0xADu8, 0x8Au8]),
        StepView::PauseMs(100),
        StepView::Command(seq![0x20u8, 0x02u8]),
        StepView::Command(seq![0xA1u8]),
        StepView::Command(seq![0xC8u8]),
        StepView::Command(seq![0xDAu8, 0x12u8]),
        StepView::Command(seq![0x81u8, 0xCFu8]),
        StepView::Command(seq![0xD9u8, 0xF1u8]),
        StepView::Command(seq![0xDBu8, 0x40u8]),
        StepView::Command(seq![0xA4u8]),
        StepView::Command(seq![0xA6u8]),
        StepView::Command(seq![0xAFu8]),
    ]
}

/// The 128 bytes of page `p` of a frame.
pub open spec fn page_bytes(bytes: Seq<u8>, p: int) -> Seq<u8> {
    bytes.subrange(p * 128, p * 128 + 128)
}

/// Step `k` (0, 1 or 2) of pushing page `p`: select the page, reset the
/// column to 0, write the page's bytes.
pub open spec fn page_step(bytes: Seq<u8>, p: int, k: int) -> StepView {
    if k == 0 {
        StepView::Command(seq![(0xB0 + p) as u8])
    } else if k == 1 {
        StepView::Command(seq![0x00u8, 0x10u8])
    } else {
        StepView::Data(page_bytes(bytes, p))
    }
}

/// The steps that push a 1024-byte frame: three per page, pages 0 to 7.
pub open spec fn frame_script(bytes: Seq<u8>) -> Seq<StepView> {
    Seq::new(24, |i: int| page_step(bytes, i / 3, i % 3))
}

/// The bytes of the data writes among `steps`, in order.
pub open spec fn data_bytes(steps: Seq<StepView>) -> Seq<u8>
    decreases steps.len(),
{
    if steps.len() == 0 {
        seq![]
    } else {
        let rest = data_bytes(steps.drop_last());
        match steps.last() {
            StepView::Data(b) => rest + b,
            _ => rest,
        }
    }
}

/// The commands among `steps`, in order.
pub open spec fn commands(steps: Seq<StepView>) -> Seq<Seq<u8>>
    decreases steps.len(),
{
    if steps.len() == 0 {
        seq![]
    } else {
        let rest = commands(steps.drop_last());
        match steps.last() {
            StepView::Command(b) => rest.push(b),
            _ => rest,
        }
    }
}

fn command1(a: u8) -> (r: BusStep)
    ensures
        r@ == StepView::Command(seq![a]),
{
    let v = vec![a];
    proof {
        assert(v@ =~= seq![a]);
    }
    BusStep::Command(v)
}

fn command2(a: u8, b: u8) -> (r: BusStep)
    ensures
        r@ == StepView::Command(seq![a, b]),
{
    let v = vec![a, b];
    proof {
        assert(v@ =~= seq![a, b]);
    }
    BusStep::Command(v)
}

/// The SSD1309 controller: the steps of each of its operations.
pub struct Ssd1309;

impl Ssd1309 {
    /// The power-up sequence of the panel.
    pub fn init() -> (r: Vec<BusStep>)
        ensures
            steps_view(r@) == init_script(),
    {
        let mut s: Vec<BusStep> = Vec::new();
        s.push(command1(0xAE));
        s.push(command2(0xD5, 0x80));
        s.push(command2(0xA8, 0x3F));
        s.push(command2(0xD3, 0x00));
        s.push(command1(0x40));
        s.push(command2(0x8D, 0x14));
        s.push(command2(0xAD, 0x8A));
        s.push(BusStep::PauseMs(100));
        s.push(command2(0x20, 0x02));
        s.push(command1(0xA1));
        s.push(command1(0xC8));
        s.push(command2(0xDA, 0x12));
        s.push(command2(0x81, 0xCF));
        s.push(command2(0xD9, 0xF1));
        s.push(command2(0xDB, 0x40));
        s.push(command1(0xA4));
        s.push(command1(0xA6));
        s.push(command1(0xAF));
        proof {
            assert(steps_view(s@) =~= init_script());
        }
        s
    }

    /// The steps that push the whole frame buffer, page by page.
    pub fn push_frame(fb: &Framebuffer) -> (r: Vec<BusStep>)
        ensures
            steps_view(r@) == frame_script(fb@),
    {
        let mut s: Vec<BusStep> = Vec::new();
        let mut page: u8 = 0;
        while page < 8
            invariant
                page <= 8,
                fb@.len() == 1024,
                s@.len() == 3 * page,
                forall|i: int| 0 <= i < 3 * page ==> #[trigger] s@[i]@ == frame_script(fb@)[i],
            decreases 8 - page,
        {
            let sel: u8 = 0xB0 | page;
            assert(0xB0u8 | page == 0xB0 + page) by (bit_vector)
                requires
                    page < 8,
            ;
            s.push(command1(sel));
            s.push(command2(0x00, 0x10));
            let start: usize = page as usize * 128;
            let mut data: Vec<u8> = Vec::with_capacity(128);
            let mut j: usize = 0;
            while j < 128
                invariant
                    j <= 128,
                    start == page * 128,
                    page < 8,
                    fb@.len() == 1024,
                    data@ == fb@.subrange(start as int, start + j),
                decreases 128 - j,
            {
                data.push(fb.buffer[start + j]);
                proof {
                    assert(data@ =~= fb@.subrange(start as int, start + j + 1));
                }
                j = j + 1;
            }
            s.push(BusStep::Data(data));
            proof {
                let p = page as int;
                assert forall|i: int| 0 <= i < 3 * (p + 1) implies #[trigger] s@[i]@ == frame_script(
                    fb@,
                )[i] by {
                    if i >= 3 * p {
                        assert(i / 3 == p);
                        assert(i % 3 == i - 3 * p);
                    }
                }
            }
            page = page + 1;
        }
        proof {
            assert(steps_view(s@) =~= frame_script(fb@));
        }
        s
    }

    /// The step that sets the contrast to `val`.
    pub fn set_contrast(val: u8) -> (r: Vec<BusStep>)
        ensures
            steps_view(r@) == seq![StepView::Command(seq![0x81u8, val])],
    {
        let s = vec![command2(0x81, val)];
        proof {
            assert(steps_view(s@) =~= seq![StepView::Command(seq![0x81u8, val])]);
        }
        s
    }

    /// The step that turns the panel off (display RAM is kept).
    pub fn sleep() -> (r: Vec<BusStep>)
        ensures
            steps_view(r@) == seq![StepView::Command(seq![0xAEu8])],
    {
        let s = vec![command1(0xAE)];
        proof {
            assert(steps_view(s@) =~= seq![StepView::Command(seq![0xAEu8])]);
        }
        s
    }
}

proof fn lemma_frame_prefix(bytes: Seq<u8>, k: int)
    requires
        bytes.len() == 1024,
        0 <= k <= 8,
    ensures
        data_bytes(frame_script(bytes).take(3 * k)) == bytes.take(128 * k),
        commands(frame_script(bytes).take(3 * k)).len() == 2 * k,
    decreases k,
{
    let f = frame_script(bytes);
    if k == 0 {
        assert(f.take(0) =~= Seq::<StepView>::empty());
        assert(bytes.take(0) =~= Seq::<u8>::empty());
    } else {
        lemma_frame_prefix(bytes, k - 1);
        let t3 = f.take(3 * k);
        assert(t3.drop_last() =~= f.take(3 * k - 1));
        assert(f.take(3 * k - 1).drop_last() =~= f.take(3 * k - 2));
        assert(f.take(3 * k - 2).drop_last() =~= f.take(3 * (k - 1)));
        assert((3 * k - 1) / 3 == k - 1);
        assert((3 * k - 1) % 3 == 2);
        assert((3 * k - 2) / 3 == k - 1);
        assert((3 * k - 2) % 3 == 1);
        assert((3 * k - 3) / 3 == k - 1);
        assert((3 * k - 3) % 3 == 0);
        assert(t3.last() == page_step(bytes, k - 1, 2));
        assert(f.take(3 * k - 1).last() == page_step(bytes, k - 1, 1));
        assert(f.take(3 * k - 2).last() == page_step(bytes, k - 1, 0));
        let t2 = f.take(3 * k - 1);
        let t1 = f.take(3 * k - 2);
        let t0 = f.take(3 * (k - 1));
        assert(data_bytes(t1) == data_bytes(t0));
        assert(data_bytes(t2) == data_bytes(t1));
        assert(data_bytes(t3) == data_bytes(t2) + page_bytes(bytes, k - 1));
        assert(commands(t1) == commands(t0).push(seq![(0xB0 + (k - 1)) as u8]));
        assert(commands(t2) == commands(t1).push(seq![0x00u8, 0x10u8]));
        assert(commands(t3) == commands(t2));
        assert(bytes.take(128 * k) =~= bytes.take(128 * (k - 1)) + page_bytes(bytes, k - 1));
    }
}

/// Pushing a frame sends the frame buffer's bytes unchanged and in order:
/// the data writes of the steps, concatenated, are the whole buffer; every
/// data write carries 128 bytes; and page `p` is written as "select page
/// `p`" (`0xB0 + p`), "column 0" (`0x00 0x10`), then its 128 bytes.
pub proof fn law_frame_carries_buffer(bytes: Seq<u8>)
    requires
        bytes.len() == 1024,
    ensures
        data_bytes(frame_script(bytes)) == bytes,
        commands(frame_script(bytes)).len() == 16,
        forall|p: int|
            0 <= p < 8 ==> #[trigger] frame_script(bytes)[3 * p] == StepView::Command(seq![(0xB0 + p) as u8])
                && frame_script(bytes)[3 * p + 1] == StepView::Command(seq![0x00u8, 0x10u8])
                && frame_script(bytes)[3 * p + 2] == StepView::Data(bytes.subrange(128 * p, 128 * p + 128)),
        forall|i: int|
            0 <= i < 24 ==> match #[trigger] frame_script(bytes)[i] {
                StepView::Data(b) => b.len() == 128,
                StepView::Command(b) => b.len() <= 2,
                StepView::PauseMs(_) => false,
            },
{
    lemma_frame_prefix(bytes, 8);
    assert forall|p: int| 0 <= p < 8 implies #[trigger] frame_script(bytes)[3 * p] == StepView::Command(
        seq![(0xB0 + p) as u8],
    ) && frame_script(bytes)[3 * p + 1] == StepView::Command(seq![0x00u8, 0x10u8])
        && frame_script(bytes)[3 * p + 2] == StepView::Data(bytes.subrange(128 * p, 128 * p + 128)) by {
        assert((3 * p) / 3 == p && (3 * p) % 3 == 0);
        assert((3 * p + 1) / 3 == p && (3 * p + 1) % 3 == 1);
        assert((3 * p + 2) / 3 == p && (3 * p + 2) % 3 == 2);
    }
    assert(frame_script(bytes).take(24) =~= frame_script(bytes));
    assert(bytes.take(1024) =~= bytes);
}

/// The power-up sequence leaves the panel showing the frame as it is: it
/// starts with the display off; sets 64 rows (`0xA8 0x3F`) with no offset
/// and start line 0; enables the charge pump (`0x8D 0x14`) before the
/// 100 ms pause; selects page addressing (`0x20 0x02`), the segment remap
/// and reversed COM scan that put column 0 left and row 0 on top
/// (`0xA1`, `0xC8`), contrast `0xCF`; and ends with "resume from RAM"
/// (`0xA4`), normal display (`0xA6`, lit bits shown lit) and display on
/// (`0xAF`).
/// Inverse display (`0xA7`) and "entire display on" (`0xA5`) are never sent.
pub proof fn law_init_shows_frame_as_is()
    ensures
        init_script().len() == 18,
        init_script()[0] == StepView::Command(seq![0xAEu8]),
        init_script()[2] == StepView::Command(seq![0xA8u8, 0x3Fu8]),
        init_script()[3] == StepView::Command(seq![0xD3u8, 0x00u8]),
        init_script()[4] == StepView::Command(seq![0x40u8]),
        init_script()[5] == StepView::Command(seq![0x8Du8, 0x14u8]),
        init_script()[7] == StepView::PauseMs(100),
        init_script()[8] == StepView::Command(seq![0x20u8, 0x02u8]),
        init_script()[9] == StepView::Command(seq![0xA1u8]),
        init_script()[10] == StepView::Command(seq![0xC8u8]),
        init_script()[12] == StepView::Command(seq![0x81u8, 0xCFu8]),
        init_script()[15] == StepView::Command(seq![0xA4u8]),
        init_script()[16] == StepView::Command(seq![0xA6u8]),
        init_script()[17] == StepView::Command(seq![0xAFu8]),
        forall|i: int|
            0 <= i < init_script().len() ==> init_script()[i] != StepView::Command(seq![0xA7u8])
                && init_script()[i] != StepView::Command(seq![0xA5u8]),
{
    let s = init_script();
    assert forall|i: int| 0 <= i < s.len() implies s[i] != StepView::Command(seq![0xA7u8]) && s[i]
        != StepView::Command(seq![0xA5u8]) by {
        match s[i] {
            StepView::Command(b) => {
                assert(b[0] != 0xA7u8 && b[0] != 0xA5u8);
                assert(b != seq![0xA7u8]);
                assert(b != seq![0xA5u8]);
            },
            _ => {},
        }
    }
}

} // verus!
