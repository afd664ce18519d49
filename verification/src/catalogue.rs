//! The built-in catalogue of equipment that an inventory can start from.

use crate::models::{views, CatalogueEntry, CatalogueEntryView};
use vstd::prelude::*;

verus! {

/// Name, description, category and icon of each catalogue entry.
pub const DEFAULT_ITEMS: [(&'static str, &'static str, &'static str, &'static str); 52] = [
    ("Cama eléctrica", "Cama articulada eléctrica con mando", "mobility", "🛏️"),
    ("Cama manual", "Cama articulada manual", "mobility", "🛏️"),
    ("Cadeira de rodas", "Cadeira de rodas manual estándar", "mobility", "♿"),
    ("Cadeira de rodas eléctrica", "Cadeira de rodas eléctrica", "mobility", "♿"),
    ("Andador", "Andador de aluminio regulable", "mobility", "🚶"),
    ("Andador con rodas", "Andador con 4 rodas e freos", "mobility", "🚶"),
    ("Muletas", "Par de muletas axustables", "mobility", "🦯"),
    ("Muletas canadenses", "Par de muletas canadenses", "mobility", "🦯"),
    ("Bastón", "Bastón simple", "mobility", "🦯"),
    ("Bastón tripode", "Bastón con base de 3 puntas", "mobility", "🦯"),
    ("Scooter", "Scooter eléctrico", "mobility", "🛴"),
    ("Cadeira para duchas", "Cadeira con respaldo para ducha", "bathroom", "🚿"),
    ("Banqueta de ducha", "Banqueta sen respaldo", "bathroom", "🚿"),
    ("Elevador de WC", "Elevador para inodoro", "bathroom", "🚽"),
    ("Barras de baño", "Xogo de barras para baño", "bathroom", "🛁"),
    ("Tapete antideslizante", "Tapete para ducha", "bathroom", "🛁"),
    ("Grúa", "Grúa para traslado de pacientes", "transfer", "🏗️"),
    ("Grúa de teito", "Grúa de teito con arnés", "transfer", "🏗️"),
    ("Prancha de transferencia", "Prancha para desprazamentos", "transfer", "📏"),
    ("Arnés", "Arnés para grúa", "transfer", "🎽"),
    ("Cinturón de transferencia", "Cinturón de axuda", "transfer", "🎽"),
    ("Lavacabezas", "Lavacabezas portátil", "care", "💆"),
    ("Cortaúñas", "Cortaúñas especial", "care", "✂️"),
    ("Espejo", "Espejo de man", "care", "🪞"),
    ("Maniquí", "Maniquí para prácticas", "care", "🎎"),
    ("Colchón antiescaras", "Colchón de aire antiescaras", "bed", "🛏️"),
    ("Colchón viscoelástico", "Colchón viscoelástico", "bed", "🛏️"),
    ("Colchón de espuma", "Colchón de espuma estándar", "bed", "🛏️"),
    ("Coxín antiescaras", "Coxín de aire ou xeles", "bed", "🪑"),
    ("Coxín postural", "Coxín para postura", "bed", "🪑"),
    ("Cuña", "Cuña de posicionamento", "bed", "📐"),
    ("Roldana", "Roldana para talóns", "bed", "🦶"),
    ("Barreiras de cama", "Barreiras de seguridade", "bed", "🛡️"),
    ("Nebulizador", "Nebulizador eléctrico", "respiratory", "💨"),
    ("Aspirador", "Aspirador de secrecións", "respiratory", "🫁"),
    ("Oxímetro", "Oxímetro de pulso", "respiratory", "💓"),
    ("Termómetro", "Termómetro dixital", "respiratory", "🌡️"),
    ("Vaso antigoteo", "Vaso con tapa e boquilla", "feeding", "🥤"),
    ("Prato con bordo", "Prato alto nos bordos", "feeding", "🍽️"),
    ("Cubertos adaptados", "Cubertos con mangos anchos", "feeding", "🍴"),
    ("Bib", "Babeteiro adulto", "feeding", "👶"),
    ("Calzador", "Calzador de calcetíns", "dressing", "🧦"),
    ("Botón", "Axuda para abrochar", "dressing", "👔"),
    ("Zapateiro", "Calzador de zapatos", "dressing", "👟"),
    ("Lupa", "Lupa de man", "communication", "🔍"),
    ("Audífonos", "Amplificador de son", "communication", "🎧"),
    ("Campá", "Campá de chamada", "communication", "🔔"),
    ("Almofada", "Almofada xeral", "other", "🛋️"),
    ("Bolsa de auga quente", "Bolsa térmica", "other", "♨️"),
    ("Manta eléctrica", "Manta con calefacción", "other", "🔌"),
    ("Mesa de cama", "Mesa para cama", "other", "🛏️"),
    ("Portaoxíxeno", "Carro para botellas", "other", "🛒"),
];

/// The catalogue as a sequence of entries.
pub open spec fn default_entries() -> Seq<CatalogueEntryView> {
    Seq::new(
        DEFAULT_ITEMS@.len(),
        |k: int|
            CatalogueEntryView {
                name: DEFAULT_ITEMS@[k].0@,
                description: DEFAULT_ITEMS@[k].1@,
                category: DEFAULT_ITEMS@[k].2@,
                icon: DEFAULT_ITEMS@[k].3@,
            },
    )
}

/// The catalogue.
pub fn default_catalogue() -> (out: Vec<CatalogueEntry>)
    ensures
        views(out@) == default_entries(),
{
    let table = DEFAULT_ITEMS;
    let mut out: Vec<CatalogueEntry> = Vec::new();
    let mut k: usize = 0;
    while k < table.len()
        invariant
            k <= table.len(),
            table == DEFAULT_ITEMS,
            out.len() == k,
            forall|i: int| 0 <= i < k ==> out[i]@ == default_entries()[i],
        decreases table.len() - k,
    {
        let row = table[k];
        out.push(
            CatalogueEntry {
                name: String::from_str(row.0),
                description: String::from_str(row.1),
                category: String::from_str(row.2),
                icon: String::from_str(row.3),
            },
        );
        k += 1;
    }
    proof {
        assert(views(out@) =~= default_entries());
    }
    out
}

} // verus!
