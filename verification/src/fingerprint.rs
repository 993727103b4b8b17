//! The outbound TCP behaviour that makes probe traffic resemble one
//! operating system.

use vstd::prelude::*;
use crate::config::TcpFingerprintConfig;

verus! {

/// Which option of a TCP SYN segment stands at a place of its layout.
#[derive(Clone, Copy, Debug, PartialEq, Eq, Structural)]
pub enum TcpOption {
    MaxSegmentSize,
    Nop,
    WindowScale,
    SackPermitted,
    Timestamp,
}

/// How the emitter shapes the SYN segments it sends.
#[derive(Clone, Debug, PartialEq, Eq)]
pub struct TcpFingerprint {
    /// Initial time to live of the IP packet.
    pub ittl: u8,
    /// Advertised receive window.
    pub window: u16,
    /// Shift count of the window scale option, where that option is sent.
    pub window_scale: u8,
    /// Advertised maximum segment size.
    pub mss: u16,
    /// The options of the segment, in the order in which they are laid out.
    pub options: Vec<TcpOption>,
}

/// A fingerprint as a mathematical value.
pub struct TcpFingerprintView {
    pub ittl: u8,
    pub window: u16,
    pub window_scale: u8,
    pub mss: u16,
    pub options: Seq<TcpOption>,
}

impl View for TcpFingerprint {
    type V = TcpFingerprintView;

    open spec fn view(&self) -> TcpFingerprintView {
        TcpFingerprintView {
            ittl: self.ittl,
            window: self.window,
            window_scale: self.window_scale,
            mss: self.mss,
            options: self.options@,
        }
    }
}

/// The option layout shared by the profiles that send no window scale and
/// no timestamp.
pub open spec fn plain_options() -> Seq<TcpOption> {
    seq![TcpOption::MaxSegmentSize, TcpOption::Nop, TcpOption::Nop, TcpOption::SackPermitted]
}

/// The option layout of the Linux family.
pub open spec fn linux_options() -> Seq<TcpOption> {
    seq![
        TcpOption::MaxSegmentSize,
        TcpOption::SackPermitted,
        TcpOption::Timestamp,
        TcpOption::Nop,
        TcpOption::WindowScale,
    ]
}

/// The option layout of Solaris 8.
pub open spec fn solaris_options() -> Seq<TcpOption> {
    seq![
        TcpOption::Nop,
        TcpOption::WindowScale,
        TcpOption::Nop,
        TcpOption::Nop,
        TcpOption::Timestamp,
        TcpOption::Nop,
        TcpOption::Nop,
        TcpOption::SackPermitted,
        TcpOption::MaxSegmentSize,
    ]
}

/// The descriptor that each named profile stands for.
pub open spec fn descriptor_of(profile: TcpFingerprintConfig) -> TcpFingerprintView {
    match profile {
        TcpFingerprintConfig::Nintendo3DS => TcpFingerprintView {
            ittl: 64,
            window: 32768,
            window_scale: 0,
            mss: 1360,
            options: plain_options(),
        },
        TcpFingerprintConfig::WindowsXP => TcpFingerprintView {
            ittl: 128,
            window: 65535,
            window_scale: 0,
            mss: 1460,
            options: plain_options(),
        },
        TcpFingerprintConfig::Windows7or8 => TcpFingerprintView {
            ittl: 128,
            window: 8192,
            window_scale: 0,
            mss: 1460,
            options: plain_options(),
        },
        TcpFingerprintConfig::Linux311AndNewer => TcpFingerprintView {
            ittl: 64,
            window: 29200,
            window_scale: 7,
            mss: 1460,
            options: linux_options(),
        },
        TcpFingerprintConfig::Solaris8 => TcpFingerprintView {
            ittl: 64,
            window: 32850,
            window_scale: 1,
            mss: 1460,
            options: solaris_options(),
        },
        TcpFingerprintConfig::Android => TcpFingerprintView {
            ittl: 64,
            window: 64240,
            window_scale: 1,
            mss: 1460,
            options: linux_options(),
        },
    }
}

fn plain_layout() -> (options: Vec<TcpOption>)
    ensures
        options@ == plain_options(),
{
    let mut options: Vec<TcpOption> = Vec::new();
    options.push(TcpOption::MaxSegmentSize);
    options.push(TcpOption::Nop);
    options.push(TcpOption::Nop);
    options.push(TcpOption::SackPermitted);
    assert(options@ =~= plain_options());
    options
}

fn linux_layout() -> (options: Vec<TcpOption>)
    ensures
        options@ == linux_options(),
{
    let mut options: Vec<TcpOption> = Vec::new();
    options.push(TcpOption::MaxSegmentSize);
    options.push(TcpOption::SackPermitted);
    options.push(TcpOption::Timestamp);
    options.push(TcpOption::Nop);
    options.push(TcpOption::WindowScale);
    assert(options@ =~= linux_options());
    options
}

fn solaris_layout() -> (options: Vec<TcpOption>)
    ensures
        options@ == solaris_options(),
{
    let mut options: Vec<TcpOption> = Vec::new();
    options.push(TcpOption::Nop);
    options.push(TcpOption::WindowScale);
    options.push(TcpOption::Nop);
    options.push(TcpOption::Nop);
    options.push(TcpOption::Timestamp);
    options.push(TcpOption::Nop);
    options.push(TcpOption::Nop);
    options.push(TcpOption::SackPermitted);
    options.push(TcpOption::MaxSegmentSize);
    assert(options@ =~= solaris_options());
    options
}

impl TcpFingerprint {
    pub fn nintendo_3ds() -> (fingerprint: TcpFingerprint)
        ensures
            fingerprint@ == descriptor_of(TcpFingerprintConfig::Nintendo3DS),
    {
        TcpFingerprint {
            ittl: 64,
            window: 32768,
            window_scale: 0,
            mss: 1360,
            options: plain_layout(),
        }
    }

    pub fn windows_xp() -> (fingerprint: TcpFingerprint)
        ensures
            fingerprint@ == descriptor_of(TcpFingerprintConfig::WindowsXP),
    {
        TcpFingerprint {
            ittl: 128,
            window: 65535,
            window_scale: 0,
            mss: 1460,
            options: plain_layout(),
        }
    }

    pub fn windows_7_or_8() -> (fingerprint: TcpFingerprint)
        ensures
            fingerprint@ == descriptor_of(TcpFingerprintConfig::Windows7or8),
    {
        TcpFingerprint {
            ittl: 128,
            window: 8192,
            window_scale: 0,
            mss: 1460,
            options: plain_layout(),
        }
    }

    pub fn linux_3_11_and_newer() -> (fingerprint: TcpFingerprint)
        ensures
            fingerprint@ == descriptor_of(TcpFingerprintConfig::Linux311AndNewer),
    {
        TcpFingerprint {
            ittl: 64,
            window: 29200,
            window_scale: 7,
            mss: 1460,
            options: linux_layout(),
        }
    }

    pub fn solaris_8() -> (fingerprint: TcpFingerprint)
        ensures
            fingerprint@ == descriptor_of(TcpFingerprintConfig::Solaris8),
    {
        TcpFingerprint {
            ittl: 64,
            window: 32850,
            window_scale: 1,
            mss: 1460,
            options: solaris_layout(),
        }
    }

    pub fn android() -> (fingerprint: TcpFingerprint)
        ensures
            fingerprint@ == descriptor_of(TcpFingerprintConfig::Android),
    {
        TcpFingerprint {
            ittl: 64,
            window: 64240,
            window_scale: 1,
            mss: 1460,
            options: linux_layout(),
        }
    }
}

/// Two profiles that resolve to the same descriptor are the same profile:
/// the six descriptors differ from one another.
pub proof fn lemma_descriptors_distinct(a: TcpFingerprintConfig, b: TcpFingerprintConfig)
    ensures
        descriptor_of(a) == descriptor_of(b) <==> a == b,
{
}

} // verus!
