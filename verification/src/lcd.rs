//! Geometry of an ST7789 panel: the device record, the scan-direction
//! register value, the full-screen address window and the chunking of a
//! screen fill. The functions here compute what is to be sent; sending it
//! is the caller's part.

use vstd::prelude::*;

verus! {

pub const WHITE: u16 = 0xFFFF;
pub const BLACK: u16 = 0x0000;
pub const RED: u16 = 0xF800;
pub const GREEN: u16 = 0x07E0;
pub const BLUE: u16 = 0x001F;
pub const MAGENTA: u16 = 0xF81F;
pub const YELLOW: u16 = 0xFFE0;
pub const CYAN: u16 = 0x07FF;

/// Scan directions: left to right and top to bottom, and the seven others.
pub const L2R_U2D: u8 = 0;
pub const L2R_D2U: u8 = 1;
pub const R2L_U2D: u8 = 2;
pub const R2L_D2U: u8 = 3;
pub const U2D_L2R: u8 = 4;
pub const U2D_R2L: u8 = 5;
pub const D2U_L2R: u8 = 6;
pub const D2U_R2L: u8 = 7;

/// The memory-access-control command and the bits of its parameter.
pub const MADCTL: u8 = 0x36;
pub const MADCTL_MY: u8 = 0x80;
pub const MADCTL_MX: u8 = 0x40;
pub const MADCTL_MV: u8 = 0x20;
pub const MADCTL_BGR: u8 = 0x08;

/// Number of pixels sent with one memory-write command during a fill.
pub const BUFFER_PIXELS: usize = 256;

/// State of the panel as the driver tracks it.
#[derive(Clone, Copy, Debug, PartialEq, Eq, Structural)]
pub struct LcdDev {
    pub width: u16,
    pub height: u16,
    /// 0 for portrait, 1 for landscape.
    pub dir: u8,
    /// Command that sets the column address range.
    pub setxcmd: u8,
    /// Command that sets the row address range.
    pub setycmd: u8,
    /// Command that writes to display memory.
    pub wramcmd: u8,
}

/// What a change of scan direction sends: the parameter of `MADCTL`, then
/// the column window with the device's `setxcmd`, then the row window with
/// its `setycmd`.
#[derive(Clone, Copy, Debug)]
pub struct ScanPlan {
    pub madctl: u8,
    pub x_window: [u8; 4],
    pub y_window: [u8; 4],
}

/// What a screen fill sends: the two windows, then `full_chunks` memory
/// writes of `BUFFER_PIXELS` pixels each and, where `remaining_bytes` is not
/// zero, one more of that many bytes, every pixel being `pixel`.
#[derive(Clone, Copy, Debug)]
pub struct ClearPlan {
    pub x_window: [u8; 4],
    pub y_window: [u8; 4],
    pub pixel: [u8; 2],
    pub full_chunks: usize,
    pub remaining_bytes: usize,
}

/// The direction that a landscape panel scans in when asked for `dir`.
pub open spec fn landscape_dir(dir: u8) -> u8 {
    if dir == 0 {
        6
    } else if dir == 1 {
        7
    } else if dir == 2 {
        4
    } else if dir == 3 {
        5
    } else if dir == 4 {
        1
    } else if dir == 5 {
        0
    } else if dir == 6 {
        3
    } else if dir == 7 {
        2
    } else {
        dir
    }
}

/// The `MADCTL` parameter for a scan direction: the row-order, column-order
/// and exchange bits of the direction, and the BGR bit in every case. A
/// direction outside the eight gets the BGR bit alone.
pub open spec fn madctl_of(dir: u8) -> u8 {
    if dir == 1 {
        0x88
    } else if dir == 2 {
        0x48
    } else if dir == 3 {
        0xC8
    } else if dir == 4 {
        0x28
    } else if dir == 5 {
        0x68
    } else if dir == 6 {
        0xA8
    } else if dir == 7 {
        0xE8
    } else {
        0x08
    }
}

/// Whether a scan direction exchanges rows and columns.
pub open spec fn exchanges_axes(dir: u8) -> bool {
    4 <= dir <= 7
}

/// The last address of an axis of `size` pixels.
pub open spec fn last_address(size: u16) -> int {
    if size == 0 {
        0
    } else {
        size - 1
    }
}

/// The address window from 0 to the last address of an axis, as the panel
/// takes it: start and end, each as two bytes, high byte first.
pub open spec fn window_of(size: u16) -> Seq<u8> {
    seq![0u8, 0u8, (last_address(size) / 256) as u8, (last_address(size) % 256) as u8]
}

impl LcdDev {
    /// A record for an ST7789 panel of the given size and orientation, with
    /// the controller's column, row and memory-write commands.
    pub fn new_st7789(width: u16, height: u16, dir: u8) -> (dev: Self)
        ensures
            dev == (LcdDev { width, height, dir, setxcmd: 0x2A, setycmd: 0x2B, wramcmd: 0x2C }),
    {
        LcdDev { width, height, dir, setxcmd: 0x2A, setycmd: 0x2B, wramcmd: 0x2C }
    }

    /// The direction that the panel is to scan in when asked for `dir`.
    pub open spec fn effective_dir(&self, dir: u8) -> u8 {
        if self.dir == 1 {
            landscape_dir(dir)
        } else {
            dir
        }
    }
}

/// Exec form of `landscape_dir`.
fn remap_landscape(dir: u8) -> (out: u8)
    ensures
        out == landscape_dir(dir),
{
    match dir {
        0 => 6,
        1 => 7,
        2 => 4,
        3 => 5,
        4 => 1,
        5 => 0,
        6 => 3,
        7 => 2,
        _ => dir,
    }
}

/// Compose the `MADCTL` parameter of a direction from its bits.
pub fn madctl_param(dir: u8) -> (param: u8)
    ensures
        param == madctl_of(dir),
        (param & MADCTL_MV != 0) == exchanges_axes(dir),
{
    let mut param: u8 = 0;
    if dir == L2R_D2U {
        param = param | MADCTL_MY;
    } else if dir == R2L_U2D {
        param = param | MADCTL_MX;
    } else if dir == R2L_D2U {
        param = param | MADCTL_MY | MADCTL_MX;
    } else if dir == U2D_L2R {
        param = param | MADCTL_MV;
    } else if dir == U2D_R2L {
        param = param | MADCTL_MX | MADCTL_MV;
    } else if dir == D2U_L2R {
        param = param | MADCTL_MY | MADCTL_MV;
    } else if dir == D2U_R2L {
        param = param | MADCTL_MY | MADCTL_MX | MADCTL_MV;
    }
    let ghost bits = param;
    param = param | MADCTL_BGR;
    proof {
        assert(0u8 | 0x80u8 == 0x80u8) by (bit_vector);
        assert(0u8 | 0x40u8 == 0x40u8) by (bit_vector);
        assert(0u8 | 0x20u8 == 0x20u8) by (bit_vector);
        assert(0u8 | 0x80u8 | 0x40u8 == 0xC0u8) by (bit_vector);
        assert(0u8 | 0x40u8 | 0x20u8 == 0x60u8) by (bit_vector);
        assert(0u8 | 0x80u8 | 0x20u8 == 0xA0u8) by (bit_vector);
        assert(0u8 | 0x80u8 | 0x40u8 | 0x20u8 == 0xE0u8) by (bit_vector);
        assert(bits == 0 || bits == 0x80 || bits == 0x40 || bits == 0x20 || bits == 0xC0 || bits
            == 0x60 || bits == 0xA0 || bits == 0xE0);
        assert(0x00u8 | 0x08u8 == 0x08u8 && 0x08u8 & 0x20u8 == 0) by (bit_vector);
        assert(0x80u8 | 0x08u8 == 0x88u8 && 0x88u8 & 0x20u8 == 0) by (bit_vector);
        assert(0x40u8 | 0x08u8 == 0x48u8 && 0x48u8 & 0x20u8 == 0) by (bit_vector);
        assert(0xC0u8 | 0x08u8 == 0xC8u8 && 0xC8u8 & 0x20u8 == 0) by (bit_vector);
        assert(0x20u8 | 0x08u8 == 0x28u8 && 0x28u8 & 0x20u8 != 0) by (bit_vector);
        assert(0x60u8 | 0x08u8 == 0x68u8 && 0x68u8 & 0x20u8 != 0) by (bit_vector);
        assert(0xA0u8 | 0x08u8 == 0xA8u8 && 0xA8u8 & 0x20u8 != 0) by (bit_vector);
        assert(0xE0u8 | 0x08u8 == 0xE8u8 && 0xE8u8 & 0x20u8 != 0) by (bit_vector);
    }
    param
}

/// The full-axis address window for an axis of `size` pixels.
pub fn window(size: u16) -> (bytes: [u8; 4])
    ensures
        bytes@ == window_of(size),
{
    let end: u16 = if size == 0 {
        0
    } else {
        size - 1
    };
    let hi: u8 = (end >> 8) as u8;
    let lo: u8 = (end & 0xFF) as u8;
    proof {
        assert((end >> 8) == end / 256) by (bit_vector);
        assert((end & 0xFF) == end % 256) by (bit_vector);
    }
    let bytes: [u8; 4] = [0, 0, hi, lo];
    proof {
        assert(bytes@ =~= window_of(size));
    }
    bytes
}

/// Set the scan direction. The direction asked for is remapped where the
/// panel is in landscape. The record's width and height are put in the
/// order that the direction calls for: where it exchanges the axes the
/// larger becomes the width, where it does not the smaller does. The plan
/// returned is what is to be sent: the `MADCTL` parameter of the direction
/// and the full-screen windows of the new width and height.
pub fn lcd_scan_dir(lcddev: &mut LcdDev, dir: u8) -> (plan: ScanPlan)
    ensures
        plan.madctl == madctl_of(old(lcddev).effective_dir(dir)),
        exchanges_axes(old(lcddev).effective_dir(dir)) ==> final(lcddev).width >= final(lcddev).height,
        !exchanges_axes(old(lcddev).effective_dir(dir)) ==> final(lcddev).width <= final(lcddev).height,
        (final(lcddev).width == old(lcddev).width && final(lcddev).height == old(lcddev).height)
            || (final(lcddev).width == old(lcddev).height && final(lcddev).height == old(lcddev).width),
        final(lcddev).dir == old(lcddev).dir,
        final(lcddev).setxcmd == old(lcddev).setxcmd,
        final(lcddev).setycmd == old(lcddev).setycmd,
        final(lcddev).wramcmd == old(lcddev).wramcmd,
        plan.x_window@ == window_of(final(lcddev).width),
        plan.y_window@ == window_of(final(lcddev).height),
{
    let dir: u8 = if lcddev.dir == 1 {
        remap_landscape(dir)
    } else {
        dir
    };
    let madctl: u8 = madctl_param(dir);
    let swapped: bool = (madctl & MADCTL_MV) != 0;
    let out_of_order: bool = if swapped {
        lcddev.width < lcddev.height
    } else {
        lcddev.width > lcddev.height
    };
    if out_of_order {
        let width: u16 = lcddev.width;
        lcddev.width = lcddev.height;
        lcddev.height = width;
    }
    ScanPlan { madctl, x_window: window(lcddev.width), y_window: window(lcddev.height) }
}

/// The record and the scan plan that initialisation ends with: a portrait
/// panel of 240 by 320 pixels, scanned left to right and top to bottom.
pub fn st7789_init() -> (r: (LcdDev, ScanPlan))
    ensures
        r.0 == (LcdDev {
            width: 240,
            height: 320,
            dir: 0,
            setxcmd: 0x2A,
            setycmd: 0x2B,
            wramcmd: 0x2C,
        }),
        r.1.madctl == MADCTL_BGR,
        r.1.x_window@ == seq![0u8, 0u8, 0x00u8, 0xEFu8],
        r.1.y_window@ == seq![0u8, 0u8, 0x01u8, 0x3Fu8],
{
    let mut lcd = LcdDev::new_st7789(240, 320, 0);
    let plan = lcd_scan_dir(&mut lcd, L2R_U2D);
    proof {
        assert(window_of(240) =~= seq![0u8, 0u8, 0x00u8, 0xEFu8]);
        assert(window_of(320) =~= seq![0u8, 0u8, 0x01u8, 0x3Fu8]);
    }
    (lcd, plan)
}

/// Number of pixels of the panel.
pub open spec fn pixel_count(dev: LcdDev) -> nat {
    (dev.width as nat) * (dev.height as nat)
}

/// Plan a fill of the whole screen with one colour: the full-screen
/// windows, the colour's two bytes, high byte first, and the pixels split
/// into full chunks of `BUFFER_PIXELS` and a rest of fewer.
pub fn lcd_clear(lcddev: &LcdDev, color: u16) -> (plan: ClearPlan)
    ensures
        plan.x_window@ == window_of(lcddev.width),
        plan.y_window@ == window_of(lcddev.height),
        plan.pixel@ == seq![(color / 256) as u8, (color % 256) as u8],
        plan.full_chunks == pixel_count(*lcddev) / (BUFFER_PIXELS as nat),
        plan.remaining_bytes == 2 * (pixel_count(*lcddev) % (BUFFER_PIXELS as nat)),
        plan.full_chunks * BUFFER_PIXELS * 2 + plan.remaining_bytes == 2 * pixel_count(*lcddev),
{
    let width: u32 = lcddev.width as u32;
    let height: u32 = lcddev.height as u32;
    proof {
        assert(width * height <= 0xFFFF * 0xFFFF) by (nonlinear_arith)
            requires
                width <= 0xFFFF,
                height <= 0xFFFF,
        ;
    }
    let total: u32 = width * height;
    let hi: u8 = (color >> 8) as u8;
    let lo: u8 = (color & 0xFF) as u8;
    proof {
        assert((color >> 8) == color / 256) by (bit_vector);
        assert((color & 0xFF) == color % 256) by (bit_vector);
    }
    let pixel: [u8; 2] = [hi, lo];
    proof {
        assert(pixel@ =~= seq![(color / 256) as u8, (color % 256) as u8]);
    }
    let full_chunks: usize = (total / 256) as usize;
    let remaining_bytes: usize = ((total % 256) * 2) as usize;
    ClearPlan {
        x_window: window(lcddev.width),
        y_window: window(lcddev.height),
        pixel,
        full_chunks,
        remaining_bytes,
    }
}

} // verus!
