//! Display controllers that scan out a framebuffer: display modes, the
//! Rockchip RK3566 VOP2 window registers and the framebuffer the firmware
//! left enabled. Register access is the caller's: reads are passed in,
//! writes are returned as `(offset, value)` pairs.

use vstd::prelude::*;

verus! {

/// A display timing.
#[derive(Clone, Copy, Debug, PartialEq, Eq, Structural)]
pub struct DisplayMode {
    pub width: u32,
    pub height: u32,
    pub refresh_hz: u32,
    pub pixel_clock_khz: u32,
    pub hsync_start: u32,
    pub hsync_end: u32,
    pub htotal: u32,
    pub vsync_start: u32,
    pub vsync_end: u32,
    pub vtotal: u32,
}

impl DisplayMode {
    pub open spec fn spec_hdmi_1080p60() -> DisplayMode {
        DisplayMode {
            width: 1920,
            height: 1080,
            refresh_hz: 60,
            pixel_clock_khz: 148500,
            hsync_start: 2008,
            hsync_end: 2052,
            htotal: 2200,
            vsync_start: 1084,
            vsync_end: 1089,
            vtotal: 1125,
        }
    }

    /// CEA 1920x1080 at 60 Hz.
    pub fn hdmi_1080p60() -> (m: DisplayMode)
        ensures
            m == Self::spec_hdmi_1080p60(),
    {
        DisplayMode {
            width: 1920,
            height: 1080,
            refresh_hz: 60,
            pixel_clock_khz: 148500,
            hsync_start: 2008,
            hsync_end: 2052,
            htotal: 2200,
            vsync_start: 1084,
            vsync_end: 1089,
            vtotal: 1125,
        }
    }

    /// CEA 1280x720 at 60 Hz.
    pub fn hdmi_720p60() -> (m: DisplayMode)
        ensures
            m == (DisplayMode {
                width: 1280,
                height: 720,
                refresh_hz: 60,
                pixel_clock_khz: 74250,
                hsync_start: 1390,
                hsync_end: 1430,
                htotal: 1650,
                vsync_start: 725,
                vsync_end: 730,
                vtotal: 750,
            }),
    {
        DisplayMode {
            width: 1280,
            height: 720,
            refresh_hz: 60,
            pixel_clock_khz: 74250,
            hsync_start: 1390,
            hsync_end: 1430,
            htotal: 1650,
            vsync_start: 725,
            vsync_end: 730,
            vtotal: 750,
        }
    }
}

/// Errors of display set-up.
#[derive(Clone, Copy, Debug, PartialEq, Eq, Structural)]
pub enum DisplayError {
    NotSupported,
}

pub const VOP2_BASE: u64 = 0xFDD9_0000;
pub const DW_HDMI_BASE: u64 = 0xFE0A_0000;

pub const VP0_DSP_CTRL: usize = 0x0C00;
pub const VP0_DSP_HACT_ST_END: usize = 0x0C08;
pub const VP0_DSP_VACT_ST_END: usize = 0x0C10;
pub const CLUSTER0_WIN_CTRL0: usize = 0x1000;
pub const CLUSTER0_WIN_ACT_INFO: usize = 0x1004;
pub const CLUSTER0_WIN_DSP_INFO: usize = 0x1008;
pub const CLUSTER0_WIN_YRGB_MST: usize = 0x1010;
pub const CLUSTER0_WIN_VIR: usize = 0x1014;

pub const WIN_ENABLE: u32 = 1;
pub const VP_DSP_CTRL_STANDBY: u32 = 0x8000_0000;

/// The window control value for an enabled ARGB8888 window.
pub const WIN_CTRL_ARGB8888_ENABLED: u32 = 11;

/// The mode the firmware programmed, from the active-area registers: their
/// low 16 bits give width and height, the other timings follow from
/// them; 1080p60 when either is zero.
pub open spec fn mode_from_active_spec(hactive: u32, vactive: u32) -> DisplayMode {
    let w = hactive & 0xFFFF;
    let h = vactive & 0xFFFF;
    if w > 0 && h > 0 {
        DisplayMode {
            width: w,
            height: h,
            refresh_hz: 60,
            pixel_clock_khz: 148500,
            hsync_start: (w + 16) as u32,
            hsync_end: (w + 60) as u32,
            htotal: (w + 280) as u32,
            vsync_start: (h + 5) as u32,
            vsync_end: (h + 10) as u32,
            vtotal: (h + 45) as u32,
        }
    } else {
        DisplayMode::spec_hdmi_1080p60()
    }
}

pub fn mode_from_active(hactive: u32, vactive: u32) -> (m: DisplayMode)
    ensures
        m == mode_from_active_spec(hactive, vactive),
{
    let w = hactive & 0xFFFF;
    let h = vactive & 0xFFFF;
    assert(w <= 0xFFFF && h <= 0xFFFF) by (bit_vector)
        requires
            w == hactive & 0xFFFF,
            h == vactive & 0xFFFF,
    ;
    if w > 0 && h > 0 {
        DisplayMode {
            width: w,
            height: h,
            refresh_hz: 60,
            pixel_clock_khz: 148500,
            hsync_start: w + 16,
            hsync_end: w + 60,
            htotal: w + 280,
            vsync_start: h + 5,
            vsync_end: h + 10,
            vtotal: h + 45,
        }
    } else {
        DisplayMode::hdmi_1080p60()
    }
}

/// The first window the firmware enabled with a buffer address, given each
/// window's control word and buffer address (Cluster0, Cluster1, Esmart0,
/// Esmart1, Smart0, Smart1).
pub open spec fn scan_spec(windows: Seq<(u32, u32)>, i: int) -> Option<usize>
    decreases windows.len() - i,
{
    if i < 0 || i >= windows.len() {
        None
    } else if windows[i].0 & WIN_ENABLE != 0 && windows[i].1 != 0 {
        Some(windows[i].1 as usize)
    } else {
        scan_spec(windows, i + 1)
    }
}

/// The register offsets of the VOP2 windows, in scan order.
pub fn window_offsets() -> (o: Vec<usize>)
    ensures
        o@ == seq![0x1000usize, 0x1200, 0x1800, 0x1A00, 0x1C00, 0x1E00],
{
    let o: Vec<usize> = vec![0x1000, 0x1200, 0x1800, 0x1A00, 0x1C00, 0x1E00];
    o
}

pub fn scan_framebuffer(windows: &[(u32, u32)]) -> (r: Option<usize>)
    ensures
        r == scan_spec(windows@, 0),
{
    let mut i: usize = 0;
    while i < windows.len()
        invariant
            0 <= i <= windows@.len(),
            scan_spec(windows@, 0) == scan_spec(windows@, i as int),
        decreases windows@.len() - i,
    {
        let (ctrl, yrgb) = windows[i];
        if ctrl & WIN_ENABLE != 0 && yrgb != 0 {
            return Some(yrgb as usize);
        }
        i = i + 1;
    }
    None
}

/// The Synopsys HDMI transmitter, which needs no set-up.
#[derive(Clone, Copy, Debug, PartialEq, Eq, Structural)]
pub struct Rk3566DwHdmi;

impl Rk3566DwHdmi {
    pub fn init(&mut self) -> (r: Result<(), DisplayError>)
        ensures
            r is Ok,
            *final(self) == *old(self),
    {
        Ok(())
    }

    pub fn set_mode(&mut self, mode: &DisplayMode) -> (r: Result<(), DisplayError>)
        ensures
            r is Ok,
            *final(self) == *old(self),
    {
        Ok(())
    }

    /// The transmitter has no enable control of its own: nothing changes.
    pub fn set_enabled(&mut self, enabled: bool)
        ensures
            *final(self) == *old(self),
    {
    }
}

/// The RK3566 video output processor.
#[derive(Clone, Copy, Debug, PartialEq, Eq, Structural)]
pub struct Rk3566Vop2 {
    pub base_pa: u64,
    pub mode: Option<DisplayMode>,
    pub fb_addr: Option<usize>,
    pub hdmi: Option<Rk3566DwHdmi>,
}

impl Rk3566Vop2 {
    /// The controller, when the device tree lists a compatible VOP, with the
    /// framebuffer the firmware left enabled.
    pub fn probe(compatible: bool, windows: &[(u32, u32)]) -> (r: Option<Rk3566Vop2>)
        ensures
            !compatible ==> r is None,
            compatible ==> r == Some(
                Rk3566Vop2 {
                    base_pa: VOP2_BASE,
                    mode: None,
                    fb_addr: scan_spec(windows@, 0),
                    hdmi: Some(Rk3566DwHdmi),
                },
            ),
    {
        if !compatible {
            return None;
        }
        let fb_addr = scan_framebuffer(windows);
        Some(Rk3566Vop2 { base_pa: VOP2_BASE, mode: None, fb_addr, hdmi: Some(Rk3566DwHdmi) })
    }

    /// Takes the mode from the active-area registers and sets up the
    /// transmitter.
    pub fn init(&mut self, hactive: u32, vactive: u32) -> (r: Result<(), DisplayError>)
        ensures
            r is Ok,
            final(self).mode == Some(mode_from_active_spec(hactive, vactive)),
            final(self).fb_addr == old(self).fb_addr,
            final(self).base_pa == old(self).base_pa,
            final(self).hdmi == old(self).hdmi,
    {
        self.mode = Some(mode_from_active(hactive, vactive));
        if let Some(mut hdmi) = self.hdmi {
            let _ = hdmi.init();
        }
        Ok(())
    }

    /// Points window 0 at the `width` x `height` buffer at `phys_addr`
    /// with `stride_bytes` per line and takes the output out of standby
    /// (`vp_ctrl` is the current output control word). Returns the buffer
    /// size and the register writes, in order.
    pub fn set_framebuffer(&mut self, phys_addr: usize, width: u32, height: u32, stride_bytes: u32, vp_ctrl: u32) -> (r: (usize, Vec<(usize, u32)>))
        requires
            width >= 1,
            height >= 1,
            (height as int) * (stride_bytes as int) <= usize::MAX,
        ensures
            r.0 == height * stride_bytes,
            r.1@ == seq![
                (CLUSTER0_WIN_CTRL0, WIN_CTRL_ARGB8888_ENABLED),
                (CLUSTER0_WIN_YRGB_MST, phys_addr as u32),
                (CLUSTER0_WIN_VIR, (stride_bytes / 4) as u32),
                (CLUSTER0_WIN_DSP_INFO, ((((height - 1) as u32) << 16u32) | ((width - 1) as u32)) as u32),
                (CLUSTER0_WIN_ACT_INFO, ((((height - 1) as u32) << 16u32) | ((width - 1) as u32)) as u32),
                (VP0_DSP_CTRL, vp_ctrl & !VP_DSP_CTRL_STANDBY),
            ],
            final(self).fb_addr == Some(phys_addr),
            final(self).mode == old(self).mode,
            final(self).base_pa == old(self).base_pa,
            final(self).hdmi == old(self).hdmi,
    {
        let size = (height as usize) * (stride_bytes as usize);
        let mut w: Vec<(usize, u32)> = Vec::new();
        w.push((CLUSTER0_WIN_CTRL0, WIN_CTRL_ARGB8888_ENABLED));
        w.push((CLUSTER0_WIN_YRGB_MST, phys_addr as u32));
        w.push((CLUSTER0_WIN_VIR, stride_bytes / 4));
        let dsp = ((height - 1) << 16u32) | (width - 1);
        w.push((CLUSTER0_WIN_DSP_INFO, dsp));
        w.push((CLUSTER0_WIN_ACT_INFO, dsp));
        w.push((VP0_DSP_CTRL, vp_ctrl & !VP_DSP_CTRL_STANDBY));
        self.fb_addr = Some(phys_addr);
        proof {
            assert(w@ =~= seq![
                (CLUSTER0_WIN_CTRL0, WIN_CTRL_ARGB8888_ENABLED),
                (CLUSTER0_WIN_YRGB_MST, phys_addr as u32),
                (CLUSTER0_WIN_VIR, (stride_bytes / 4) as u32),
                (CLUSTER0_WIN_DSP_INFO, ((((height - 1) as u32) << 16u32) | ((width - 1) as u32)) as u32),
                (CLUSTER0_WIN_ACT_INFO, ((((height - 1) as u32) << 16u32) | ((width - 1) as u32)) as u32),
                (VP0_DSP_CTRL, vp_ctrl & !VP_DSP_CTRL_STANDBY),
            ]);
        }
        (size, w)
    }

    /// The window-control write that shows or hides window 0.
    pub fn set_enabled(&mut self, enabled: bool) -> (w: (usize, u32))
        ensures
            w == (CLUSTER0_WIN_CTRL0, if enabled { WIN_CTRL_ARGB8888_ENABLED } else { 0u32 }),
            *final(self) == *old(self),
    {
        (CLUSTER0_WIN_CTRL0, if enabled { WIN_CTRL_ARGB8888_ENABLED } else { 0 })
    }

    pub fn framebuffer_addr(&self) -> (a: Option<usize>)
        ensures
            a == self.fb_addr,
    {
        self.fb_addr
    }

    pub fn current_mode(&self) -> (m: Option<DisplayMode>)
        ensures
            m == self.mode,
    {
        self.mode
    }
}

/// The RK3566 controller, as [`Rk3566Vop2::probe`] finds it.
pub fn probe(compatible: bool, windows: &[(u32, u32)]) -> (r: Option<Rk3566Vop2>)
    ensures
        !compatible ==> r is None,
        compatible ==> r == Some(
            Rk3566Vop2 {
                base_pa: VOP2_BASE,
                mode: None,
                fb_addr: scan_spec(windows@, 0),
                hdmi: Some(Rk3566DwHdmi),
            },
        ),
{
    Rk3566Vop2::probe(compatible, windows)
}

/// The display controller of the board: the RK3566 one is the only one
/// there is a driver for.
pub fn probe_display_controller(compatible: bool, windows: &[(u32, u32)]) -> (r: Option<Rk3566Vop2>)
    ensures
        r == (if compatible {
            Some(
                Rk3566Vop2 {
                    base_pa: VOP2_BASE,
                    mode: None,
                    fb_addr: scan_spec(windows@, 0),
                    hdmi: Some(Rk3566DwHdmi),
                },
            )
        } else {
            None
        }),
{
    probe(compatible, windows)
}

/// The framebuffer the display component publishes for a controller's
/// mode (1080p60 when it has none): XRGB8888 lines of `4 * width` bytes.
pub fn framebuffer_geometry(mode: Option<DisplayMode>) -> (g: (DisplayMode, usize, usize))
    requires
        match mode {
            Some(m) => (m.width as int) * 4 <= usize::MAX && (m.height as int) * ((m.width as int)
                * 4) <= usize::MAX,
            None => true,
        },
    ensures
        g.0 == match mode {
            Some(m) => m,
            None => DisplayMode::spec_hdmi_1080p60(),
        },
        g.1 == g.0.width * 4,
        g.2 == g.0.height * (g.0.width * 4),
{
    let m = match mode {
        Some(m) => m,
        None => DisplayMode::hdmi_1080p60(),
    };
    let stride = m.width as usize * 4;
    assert((m.height as int) * (stride as int) <= usize::MAX) by (nonlinear_arith)
        requires
            stride == (m.width as int) * 4,
            (m.height as int) * ((m.width as int) * 4) <= usize::MAX || (m.height == 1080 && m.width
                == 1920),
    ;
    let size = m.height as usize * stride;
    (m, stride, size)
}

} // verus!
