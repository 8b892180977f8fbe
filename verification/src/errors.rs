//! Errors reported to the user, with their Spanish messages.

use vstd::prelude::*;
use crate::text::{append_chars, signed_decimal, signed_decimal_chars};

verus! {

/// A failure the UI reports to the user.
#[derive(Debug, Clone)]
pub enum AppError {
    WfRecorderNotFound,
    WlrRandrNotFound,
    SlurpNotFound,
    FfmpegNotFound,
    /// wf-recorder (or ffmpeg) exited with the given code and reason.
    RecorderExit(i32, String),
    /// An I/O failure, with the system's description of it.
    Io(String),
    /// A configuration or tool output that could not be understood.
    ConfigParse(String),
}

/// The message shown for each error.
pub open spec fn error_text(e: AppError) -> Seq<char> {
    match e {
        AppError::WfRecorderNotFound => "No se encontró el ejecutable 'wf-recorder' en el PATH. Instálalo con el gestor de paquetes de tu distro (xbps-install wf-recorder / apt install wf-recorder / pacman -S wf-recorder)."@,
        AppError::WlrRandrNotFound => "No se encontró 'wlr-randr' en el PATH. Es necesario para listar los monitores Wayland disponibles. Instálalo con tu gestor de paquetes."@,
        AppError::SlurpNotFound => "No se encontró 'slurp' en el PATH. Es necesario para seleccionar un área de la pantalla interactivamente."@,
        AppError::FfmpegNotFound => "No se encontró 'ffmpeg' en el PATH. Es necesario para la post-procesamiento de GIF."@,
        AppError::RecorderExit(code, reason) => "wf-recorder terminó con código "@ + signed_decimal(
            code as int,
        ) + ": "@ + reason@,
        AppError::Io(what) => "Error de E/S: "@ + what@,
        AppError::ConfigParse(what) => "Error al parsear la configuración: "@ + what@,
    }
}

impl AppError {
    /// The message shown to the user for this error.
    pub fn message(&self) -> (r: String)
        ensures
            r@ == error_text(*self),
    {
        match self {
            AppError::WfRecorderNotFound => String::from_str(
                "No se encontró el ejecutable 'wf-recorder' en el PATH. Instálalo con el gestor de paquetes de tu distro (xbps-install wf-recorder / apt install wf-recorder / pacman -S wf-recorder).",
            ),
            AppError::WlrRandrNotFound => String::from_str(
                "No se encontró 'wlr-randr' en el PATH. Es necesario para listar los monitores Wayland disponibles. Instálalo con tu gestor de paquetes.",
            ),
            AppError::SlurpNotFound => String::from_str(
                "No se encontró 'slurp' en el PATH. Es necesario para seleccionar un área de la pantalla interactivamente.",
            ),
            AppError::FfmpegNotFound => String::from_str(
                "No se encontró 'ffmpeg' en el PATH. Es necesario para la post-procesamiento de GIF.",
            ),
            AppError::RecorderExit(code, reason) => {
                let mut r = String::from_str("wf-recorder terminó con código ");
                let digits = signed_decimal_chars(*code as i64);
                append_chars(&mut r, &digits);
                r.append(": ");
                r.append(reason.as_str());
                r
            },
            AppError::Io(what) => {
                let mut r = String::from_str("Error de E/S: ");
                r.append(what.as_str());
                r
            },
            AppError::ConfigParse(what) => {
                let mut r = String::from_str("Error al parsear la configuración: ");
                r.append(what.as_str());
                r
            },
        }
    }
}

} // verus!
